//! The programs that the router knows by name, the role of each, and the
//! name that a control message asks for it by.

use vstd::prelude::*;
use vstd::slice::slice_to_vec;

verus! {

/// What a program does with a packet: judge it, choose an output for it, or
/// change it.
#[derive(Copy, Clone, Debug, PartialEq, Eq, Structural)]
pub enum Role {
    Filter,
    Classifier,
    Rewriter,
}

/// The built-in programs.
#[derive(Copy, Clone, Debug, PartialEq, Eq, Structural)]
pub enum Program {
    /// `pass`
    Pass,
    /// `drop`
    Drop,
    /// `target-port`
    TargetPort,
    /// `rate-limiter`
    RateLimiter,
    /// `stringmatcher`
    StringMatcher,
    /// `firewall`
    Firewall,
    /// `state-migration-v1`
    StateMigrationV1,
    /// `state-migration-v2`
    StateMigrationV2,
    /// `round-robin`
    RoundRobin,
    /// `nat`
    Nat,
    /// `udp-tcp-classifier`
    UdpTcpClassifier,
    /// `ether-mirror`
    EtherMirror,
    /// `strip-ether-vlan-header`
    StripEtherVlanHeader,
}

/// Number of built-in programs.
pub const PROGRAM_COUNT: usize = 13;

impl Program {
    /// The program's role.
    pub open spec fn spec_role(self) -> Role {
        match self {
            Program::Pass => Role::Filter,
            Program::Drop => Role::Filter,
            Program::TargetPort => Role::Filter,
            Program::RateLimiter => Role::Filter,
            Program::StringMatcher => Role::Filter,
            Program::Firewall => Role::Filter,
            Program::StateMigrationV1 => Role::Filter,
            Program::StateMigrationV2 => Role::Filter,
            Program::RoundRobin => Role::Classifier,
            Program::Nat => Role::Classifier,
            Program::UdpTcpClassifier => Role::Classifier,
            Program::EtherMirror => Role::Rewriter,
            Program::StripEtherVlanHeader => Role::Rewriter,
        }
    }

    /// The program's role.
    pub fn role(self) -> (r: Role)
        ensures
            r == self.spec_role(),
    {
        match self {
            Program::Pass => Role::Filter,
            Program::Drop => Role::Filter,
            Program::TargetPort => Role::Filter,
            Program::RateLimiter => Role::Filter,
            Program::StringMatcher => Role::Filter,
            Program::Firewall => Role::Filter,
            Program::StateMigrationV1 => Role::Filter,
            Program::StateMigrationV2 => Role::Filter,
            Program::RoundRobin => Role::Classifier,
            Program::Nat => Role::Classifier,
            Program::UdpTcpClassifier => Role::Classifier,
            Program::EtherMirror => Role::Rewriter,
            Program::StripEtherVlanHeader => Role::Rewriter,
        }
    }

    /// The name that a control message asks for the program by, in ASCII.
    pub open spec fn spec_name(self) -> Seq<u8> {
        match self {
            Program::Pass => seq![112u8, 97u8, 115u8, 115u8],
            Program::Drop => seq![100u8, 114u8, 111u8, 112u8],
            Program::TargetPort => seq![116u8, 97u8, 114u8, 103u8, 101u8, 116u8, 45u8, 112u8, 111u8, 114u8, 116u8],
            Program::RateLimiter => seq![114u8, 97u8, 116u8, 101u8, 45u8, 108u8, 105u8, 109u8, 105u8, 116u8, 101u8, 114u8],
            Program::StringMatcher => seq![115u8, 116u8, 114u8, 105u8, 110u8, 103u8, 109u8, 97u8, 116u8, 99u8, 104u8, 101u8, 114u8],
            Program::Firewall => seq![102u8, 105u8, 114u8, 101u8, 119u8, 97u8, 108u8, 108u8],
            Program::StateMigrationV1 => seq![115u8, 116u8, 97u8, 116u8, 101u8, 45u8, 109u8, 105u8, 103u8, 114u8, 97u8, 116u8, 105u8, 111u8, 110u8, 45u8, 118u8, 49u8],
            Program::StateMigrationV2 => seq![115u8, 116u8, 97u8, 116u8, 101u8, 45u8, 109u8, 105u8, 103u8, 114u8, 97u8, 116u8, 105u8, 111u8, 110u8, 45u8, 118u8, 50u8],
            Program::RoundRobin => seq![114u8, 111u8, 117u8, 110u8, 100u8, 45u8, 114u8, 111u8, 98u8, 105u8, 110u8],
            Program::Nat => seq![110u8, 97u8, 116u8],
            Program::UdpTcpClassifier => seq![117u8, 100u8, 112u8, 45u8, 116u8, 99u8, 112u8, 45u8, 99u8, 108u8, 97u8, 115u8, 115u8, 105u8, 102u8, 105u8, 101u8, 114u8],
            Program::EtherMirror => seq![101u8, 116u8, 104u8, 101u8, 114u8, 45u8, 109u8, 105u8, 114u8, 114u8, 111u8, 114u8],
            Program::StripEtherVlanHeader => seq![115u8, 116u8, 114u8, 105u8, 112u8, 45u8, 101u8, 116u8, 104u8, 101u8, 114u8, 45u8, 118u8, 108u8, 97u8, 110u8, 45u8, 104u8, 101u8, 97u8, 100u8, 101u8, 114u8],
        }
    }

    /// The name that a control message asks for the program by, in ASCII.
    pub fn name(self) -> (n: Vec<u8>)
        ensures
            n@ == self.spec_name(),
    {
        match self {
            Program::Pass => {
                let word: [u8; 4] = [112, 97, 115, 115];
                assert(word@ =~= self.spec_name());
                slice_to_vec(word.as_slice())
            },
            Program::Drop => {
                let word: [u8; 4] = [100, 114, 111, 112];
                assert(word@ =~= self.spec_name());
                slice_to_vec(word.as_slice())
            },
            Program::TargetPort => {
                let word: [u8; 11] = [116, 97, 114, 103, 101, 116, 45, 112, 111, 114, 116];
                assert(word@ =~= self.spec_name());
                slice_to_vec(word.as_slice())
            },
            Program::RateLimiter => {
                let word: [u8; 12] = [114, 97, 116, 101, 45, 108, 105, 109, 105, 116, 101, 114];
                assert(word@ =~= self.spec_name());
                slice_to_vec(word.as_slice())
            },
            Program::StringMatcher => {
                let word: [u8; 13] = [115, 116, 114, 105, 110, 103, 109, 97, 116, 99, 104, 101, 114];
                assert(word@ =~= self.spec_name());
                slice_to_vec(word.as_slice())
            },
            Program::Firewall => {
                let word: [u8; 8] = [102, 105, 114, 101, 119, 97, 108, 108];
                assert(word@ =~= self.spec_name());
                slice_to_vec(word.as_slice())
            },
            Program::StateMigrationV1 => {
                let word: [u8; 18] = [115, 116, 97, 116, 101, 45, 109, 105, 103, 114, 97, 116, 105, 111, 110, 45, 118, 49];
                assert(word@ =~= self.spec_name());
                slice_to_vec(word.as_slice())
            },
            Program::StateMigrationV2 => {
                let word: [u8; 18] = [115, 116, 97, 116, 101, 45, 109, 105, 103, 114, 97, 116, 105, 111, 110, 45, 118, 50];
                assert(word@ =~= self.spec_name());
                slice_to_vec(word.as_slice())
            },
            Program::RoundRobin => {
                let word: [u8; 11] = [114, 111, 117, 110, 100, 45, 114, 111, 98, 105, 110];
                assert(word@ =~= self.spec_name());
                slice_to_vec(word.as_slice())
            },
            Program::Nat => {
                let word: [u8; 3] = [110, 97, 116];
                assert(word@ =~= self.spec_name());
                slice_to_vec(word.as_slice())
            },
            Program::UdpTcpClassifier => {
                let word: [u8; 18] = [117, 100, 112, 45, 116, 99, 112, 45, 99, 108, 97, 115, 115, 105, 102, 105, 101, 114];
                assert(word@ =~= self.spec_name());
                slice_to_vec(word.as_slice())
            },
            Program::EtherMirror => {
                let word: [u8; 12] = [101, 116, 104, 101, 114, 45, 109, 105, 114, 114, 111, 114];
                assert(word@ =~= self.spec_name());
                slice_to_vec(word.as_slice())
            },
            Program::StripEtherVlanHeader => {
                let word: [u8; 23] = [115, 116, 114, 105, 112, 45, 101, 116, 104, 101, 114, 45, 118, 108, 97, 110, 45, 104, 101, 97, 100, 101, 114];
                assert(word@ =~= self.spec_name());
                slice_to_vec(word.as_slice())
            },
        }
    }

    /// The program at place `index` of the list of built-in programs.
    pub open spec fn spec_nth(index: int) -> Program {
        if index == 0 {
            Program::Pass
        }         else if index == 1 {
            Program::Drop
        }         else if index == 2 {
            Program::TargetPort
        }         else if index == 3 {
            Program::RateLimiter
        }         else if index == 4 {
            Program::StringMatcher
        }         else if index == 5 {
            Program::Firewall
        }         else if index == 6 {
            Program::StateMigrationV1
        }         else if index == 7 {
            Program::StateMigrationV2
        }         else if index == 8 {
            Program::RoundRobin
        }         else if index == 9 {
            Program::Nat
        }         else if index == 10 {
            Program::UdpTcpClassifier
        }         else if index == 11 {
            Program::EtherMirror
        } else {
            Program::StripEtherVlanHeader
        }
    }

    /// The program at place `index` of the list of built-in programs.
    fn nth(index: usize) -> (p: Program)
        ensures
            p == Program::spec_nth(index as int),
    {
        if index == 0 {
            Program::Pass
        }         else if index == 1 {
            Program::Drop
        }         else if index == 2 {
            Program::TargetPort
        }         else if index == 3 {
            Program::RateLimiter
        }         else if index == 4 {
            Program::StringMatcher
        }         else if index == 5 {
            Program::Firewall
        }         else if index == 6 {
            Program::StateMigrationV1
        }         else if index == 7 {
            Program::StateMigrationV2
        }         else if index == 8 {
            Program::RoundRobin
        }         else if index == 9 {
            Program::Nat
        }         else if index == 10 {
            Program::UdpTcpClassifier
        }         else if index == 11 {
            Program::EtherMirror
        } else {
            Program::StripEtherVlanHeader
        }
    }

    /// Every program stands in the list of built-in programs.
    pub proof fn lemma_listed(self)
        ensures
            exists|i: int| 0 <= i < PROGRAM_COUNT && Program::spec_nth(i) == self,
    {
        match self {
            Program::Pass => {
                assert(Program::spec_nth(0) == self);
            },
            Program::Drop => {
                assert(Program::spec_nth(1) == self);
            },
            Program::TargetPort => {
                assert(Program::spec_nth(2) == self);
            },
            Program::RateLimiter => {
                assert(Program::spec_nth(3) == self);
            },
            Program::StringMatcher => {
                assert(Program::spec_nth(4) == self);
            },
            Program::Firewall => {
                assert(Program::spec_nth(5) == self);
            },
            Program::StateMigrationV1 => {
                assert(Program::spec_nth(6) == self);
            },
            Program::StateMigrationV2 => {
                assert(Program::spec_nth(7) == self);
            },
            Program::RoundRobin => {
                assert(Program::spec_nth(8) == self);
            },
            Program::Nat => {
                assert(Program::spec_nth(9) == self);
            },
            Program::UdpTcpClassifier => {
                assert(Program::spec_nth(10) == self);
            },
            Program::EtherMirror => {
                assert(Program::spec_nth(11) == self);
            },
            Program::StripEtherVlanHeader => {
                assert(Program::spec_nth(12) == self);
            },
        }
    }

    /// The program that `name` asks for, if there is one.
    pub open spec fn spec_from_name(name: Seq<u8>) -> Option<Program> {
        if exists|p: Program| p.spec_name() == name {
            Some(choose|p: Program| p.spec_name() == name)
        } else {
            None
        }
    }

    /// The program that `name` asks for, if there is one.
    pub fn from_name(name: &[u8]) -> (r: Option<Program>)
        ensures
            r == Program::spec_from_name(name@),
            match r {
                Some(p) => p.spec_name() == name@,
                None => forall|p: Program| p.spec_name() != name@,
            },
    {
        let mut i: usize = 0;
        while i < PROGRAM_COUNT
            invariant
                i <= PROGRAM_COUNT,
                forall|k: int| 0 <= k < i ==> Program::spec_nth(k).spec_name() != name@,
            decreases PROGRAM_COUNT - i,
        {
            let candidate = Program::nth(i);
            let word = candidate.name();
            if same_bytes(word.as_slice(), name) {
                proof {
                    let chosen = choose|p: Program| p.spec_name() == name@;
                    lemma_names_differ(chosen, candidate);
                }
                return Some(candidate);
            }
            i += 1;
        }
        proof {
            assert forall|p: Program| p.spec_name() != name@ by {
                p.lemma_listed();
            }
        }
        None
    }
}

/// Whether two byte strings are the same.
pub fn same_bytes(a: &[u8], b: &[u8]) -> (same: bool)
    ensures
        same == (a@ == b@),
{
    if a.len() != b.len() {
        return false;
    }
    let mut i: usize = 0;
    while i < a.len()
        invariant
            i <= a@.len(),
            a@.len() == b@.len(),
            forall|k: int| 0 <= k < i ==> a@[k] == b@[k],
        decreases a@.len() - i,
    {
        if a[i] != b[i] {
            return false;
        }
        i += 1;
    }
    assert(a@ =~= b@);
    true
}

/// No two programs have the same name.
pub proof fn lemma_names_differ(p: Program, q: Program)
    requires
        p.spec_name() == q.spec_name(),
    ensures
        p == q,
{
    let a = p.spec_name();
    let b = q.spec_name();
    assert(a.len() == b.len());
    if a.len() > 0 {
        assert(a[0] == b[0]);
    }
    if a.len() > 1 {
        assert(a[1] == b[1]);
    }
    if a.len() > 17 {
        assert(a[17] == b[17]);
    }
}

/// Every program is the one that its name asks for.
pub proof fn lemma_from_name_of_name(p: Program)
    ensures
        Program::spec_from_name(p.spec_name()) == Some(p),
{
    let chosen = choose|q: Program| q.spec_name() == p.spec_name();
    lemma_names_differ(chosen, p);
}

} // verus!
