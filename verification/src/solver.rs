//! Feasibility checking: given a buffer size and an access offset, decide
//! whether the access can leave the buffer's bounds.
//!
//! The valid offset range of a zero-indexed buffer of size `s` is
//! `[0, s)`, so an offset equal to the size already overflows. A size or
//! offset that is unknown — absent, or carried as the zero sentinel — is
//! conservatively treated as an overflow: absence of proof of safety is
//! treated as presence of risk.

use vstd::prelude::*;

use crate::analyzer::OverflowCandidate;
use crate::text::{dec_digits, str_eq, u64_to_string};
use vstd::string::StringExecFns;

verus! {

/// Verdict record for one checked candidate.
#[derive(Debug)]
pub struct BufferConstraint {
    pub buffer_size: u64,
    pub offset: u64,
    pub is_overflow: bool,
}

/// The feasibility policy. Zero stands for an unknown quantity and is
/// resolved conservatively; otherwise the access overflows exactly when the
/// offset reaches or exceeds the size.
pub open spec fn overflow_verdict(buffer_size: u64, offset: u64) -> bool {
    buffer_size == 0 || offset == 0 || offset >= buffer_size
}

/// The size a candidate carries, with the zero sentinel for an unknown one.
pub open spec fn candidate_size(c: OverflowCandidate) -> u64 {
    match c.buffer_size {
        Some(n) => n as u64,
        None => 0,
    }
}

/// The offset a candidate carries, with the zero sentinel for an unknown one.
pub open spec fn candidate_offset(c: OverflowCandidate) -> u64 {
    match c.offset {
        Some(n) => n as u64,
        None => 0,
    }
}

/// The verdict the checker owes for a candidate.
pub open spec fn candidate_verdict(c: OverflowCandidate) -> bool {
    overflow_verdict(candidate_size(c), candidate_offset(c))
}

/// Decides overflow feasibility for candidates, against a registry of
/// buffers with known sizes. The registry maps a buffer identity to its
/// declared size; registering a name again overrides the earlier size.
pub struct BufferSolver {
    buffers: Vec<(String, u64)>,
}

/// The registry a sequence of name/size registrations denotes: later
/// registrations of the same name win.
pub open spec fn registry_of(s: Seq<(String, u64)>) -> Map<Seq<char>, u64>
    decreases s.len(),
{
    if s.len() == 0 {
        Map::empty()
    } else {
        registry_of(s.drop_last()).insert(s.last().0@, s.last().1)
    }
}

impl View for BufferSolver {
    type V = Map<Seq<char>, u64>;

    closed spec fn view(&self) -> Map<Seq<char>, u64> {
        registry_of(self.buffers@)
    }
}

/// Entries after position `i` that never mention `name` do not affect what
/// the registry holds for `name`.
proof fn lemma_registry_skip_suffix(s: Seq<(String, u64)>, name: Seq<char>, i: int)
    requires
        0 <= i <= s.len(),
        forall|k: int| i <= k < s.len() ==> #[trigger] s[k].0@ != name,
    ensures
        registry_of(s).contains_key(name) == registry_of(s.take(i)).contains_key(name),
        registry_of(s).contains_key(name) ==> registry_of(s)[name] == registry_of(s.take(i))[name],
    decreases s.len() - i,
{
    if i == s.len() {
        assert(s.take(i) =~= s);
    } else {
        let shorter = s.drop_last();
        assert(shorter.take(i) =~= s.take(i));
        lemma_registry_skip_suffix(shorter, name, i);
    }
}

impl BufferSolver {
    pub fn new() -> (solver: BufferSolver)
        ensures
            solver@ == Map::<Seq<char>, u64>::empty(),
    {
        BufferSolver { buffers: Vec::new() }
    }

    /// Registers a buffer identity with its declared size.
    pub fn add_buffer(&mut self, name: &str, size: u64)
        ensures
            final(self)@ == old(self)@.insert(name@, size),
    {
        let entry = (String::from_str(name), size);
        self.buffers.push(entry);
        proof {
            assert(self.buffers@.drop_last() =~= old(self).buffers@);
        }
    }

    /// The registered size of a buffer, or `None` for an unknown identity.
    fn lookup(&self, name: &str) -> (r: Option<u64>)
        ensures
            r == if self@.contains_key(name@) {
                Some(self@[name@])
            } else {
                None::<u64>
            },
    {
        let ghost s = self.buffers@;
        let mut i: usize = self.buffers.len();
        while i > 0
            invariant
                i <= s.len(),
                s == self.buffers@,
                forall|k: int| i <= k < s.len() ==> #[trigger] s[k].0@ != name@,
            decreases i,
        {
            i = i - 1;
            if str_eq(self.buffers[i].0.as_str(), name) {
                proof {
                    lemma_registry_skip_suffix(s, name@, i + 1);
                    assert(s.take(i + 1).drop_last() =~= s.take(i as int));
                    assert(registry_of(s.take(i + 1))
                        == registry_of(s.take(i as int)).insert(s[i as int].0@, s[i as int].1));
                }
                return Some(self.buffers[i].1);
            }
        }
        proof {
            lemma_registry_skip_suffix(s, name@, 0);
            assert(s.take(0) =~= Seq::<(String, u64)>::empty());
        }
        None
    }

    /// Decides whether an access at `offset` into the buffer registered
    /// under `name` can overflow. An identity that was never registered has
    /// unknown size and is resolved conservatively.
    pub fn check_overflow(&self, name: &str, offset: u64) -> (r: BufferConstraint)
        ensures
            r.buffer_size == if self@.contains_key(name@) {
                self@[name@]
            } else {
                0u64
            },
            r.offset == offset,
            r.is_overflow == overflow_verdict(r.buffer_size, offset),
    {
        let buffer_size = match self.lookup(name) {
            Some(size) => size,
            None => 0,
        };
        BufferConstraint {
            buffer_size,
            offset,
            is_overflow: buffer_size == 0 || offset == 0 || offset >= buffer_size,
        }
    }

    /// Decides feasibility for a detected candidate from the size and
    /// offset the candidate itself carries.
    pub fn check_candidate(&self, candidate: &OverflowCandidate) -> (r: BufferConstraint)
        ensures
            r.buffer_size == candidate_size(*candidate),
            r.offset == candidate_offset(*candidate),
            r.is_overflow == candidate_verdict(*candidate),
    {
        let buffer_size: u64 = match candidate.buffer_size {
            Some(n) => n as u64,
            None => 0,
        };
        let offset: u64 = match candidate.offset {
            Some(n) => n as u64,
            None => 0,
        };
        BufferConstraint {
            buffer_size,
            offset,
            is_overflow: buffer_size == 0 || offset == 0 || offset >= buffer_size,
        }
    }
}

/// The reproduction program for an access: a buffer of `size` elements and
/// a raw write at `offset` past its start.
pub open spec fn test_case_text(size: u64, offset: u64) -> Seq<char> {
    "fn main() {\n    let mut buffer = vec![0u8; "@ + dec_digits(size as nat)
        + "];\n    unsafe {\n        let ptr = buffer.as_mut_ptr();\n        *ptr.add("@
        + dec_digits(offset as nat)
        + ") = 42;\n    }\n    println!(\"{}\", buffer.len());\n}\n"@
}

impl BufferSolver {
    /// Renders a small program reproducing an access at `offset` into the
    /// buffer registered under `name`, with the zero sentinel for an
    /// unregistered identity.
    pub fn generate_test_case(&self, name: &str, offset: u64) -> (r: String)
        ensures
            r@ == test_case_text(
                if self@.contains_key(name@) {
                    self@[name@]
                } else {
                    0u64
                },
                offset,
            ),
    {
        let size = match self.lookup(name) {
            Some(s) => s,
            None => 0,
        };
        let size_digits = u64_to_string(size);
        let offset_digits = u64_to_string(offset);
        let mut r = String::from_str("fn main() {\n    let mut buffer = vec![0u8; ");
        r.append(size_digits.as_str());
        r.append("];\n    unsafe {\n        let ptr = buffer.as_mut_ptr();\n        *ptr.add(");
        r.append(offset_digits.as_str());
        r.append(") = 42;\n    }\n    println!(\"{}\", buffer.len());\n}\n");
        proof {
            assert(r@ =~= test_case_text(size, offset));
        }
        r
    }
}

/// For every buffer with genuinely known size and offset — both present and
/// away from the zero-as-unknown sentinel — the verdict is overflow exactly
/// when the offset reaches or exceeds the size.
pub proof fn lemma_known_values_verdict(buffer_size: u64, offset: u64)
    requires
        buffer_size > 0,
        offset > 0,
    ensures
        overflow_verdict(buffer_size, offset) == (offset >= buffer_size),
{
}

/// A candidate missing its size or its offset is always resolved as an
/// overflow: the conservative default.
pub proof fn lemma_unknown_is_conservative(c: OverflowCandidate)
    requires
        c.buffer_size is None || c.offset is None,
    ensures
        candidate_verdict(c),
{
}

} // verus!
