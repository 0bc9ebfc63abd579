//! The fixed exit-code policy: how each way a wait can end becomes one code.
use vstd::prelude::*;

verus! {

/// The code returned when the child exits without a code, when the wait
/// fails, or when the shell cannot be spawned.
pub const FAILURE_CODE: i32 = 1;

/// The code returned when the child was already reaped by someone else.
pub const ALREADY_REAPED_CODE: i32 = 0;

/// The code the whole hosting process ends with when an interrupt wins the
/// race for the child.
pub const INTERRUPT_EXIT_CODE: i32 = 69;

/// How a blocking wait on the child came back.
#[derive(Clone, Copy, Debug, PartialEq, Eq, Structural)]
pub enum WaitResult {
    /// The child exited; `code` is absent when the platform reports none
    /// (killed by a signal on POSIX).
    Exited { code: Option<i32> },
    /// The wait failed because the child had already been reaped.
    NoChild,
    /// The wait failed for any other reason.
    Failed,
}

/// The code that a wait result resolves to.
pub open spec fn exit_code_of(r: WaitResult) -> i32 {
    match r {
        WaitResult::Exited { code: Some(c) } => c,
        WaitResult::Exited { code: None } => FAILURE_CODE,
        WaitResult::NoChild => ALREADY_REAPED_CODE,
        WaitResult::Failed => FAILURE_CODE,
    }
}

/// Resolves a wait result to the code handed back to the caller.
pub fn exit_code(r: WaitResult) -> (c: i32)
    ensures
        c == exit_code_of(r),
{
    match r {
        WaitResult::Exited { code: Some(c) } => c,
        WaitResult::Exited { code: None } => FAILURE_CODE,
        WaitResult::NoChild => ALREADY_REAPED_CODE,
        WaitResult::Failed => FAILURE_CODE,
    }
}

/// Whether `needle` occurs in `hay` as a contiguous run of characters.
pub open spec fn text_contains(hay: Seq<char>, needle: Seq<char>) -> bool {
    exists|i: int|
        0 <= i && i + needle.len() <= hay.len() && #[trigger] hay.subrange(i, i + needle.len())
            == needle
}

/// The characters of a string, one per element.
fn chars_of(s: &str) -> (r: Vec<char>)
    ensures
        r@ == s@,
{
    let n = s.unicode_len();
    let mut out: Vec<char> = Vec::new();
    let mut i: usize = 0;
    while i < n
        invariant
            n == s@.len(),
            i <= n,
            out@ == s@.subrange(0, i as int),
        decreases n - i,
    {
        out.push(s.get_char(i));
        i += 1;
        assert(out@ =~= s@.subrange(0, i as int));
    }
    assert(out@ =~= s@);
    out
}

/// Whether `needle` matches `hay` at position `at`.
fn matches_at(hay: &Vec<char>, needle: &Vec<char>, at: usize) -> (r: bool)
    requires
        at + needle@.len() <= hay@.len(),
    ensures
        r == (hay@.subrange(at as int, at + needle@.len()) == needle@),
{
    let m = needle.len();
    let hl = hay.len();
    let mut j: usize = 0;
    while j < m
        invariant
            m == needle@.len(),
            hl == hay@.len(),
            at + m <= hl,
            j <= m,
            forall|k: int| 0 <= k < j ==> hay@[at + k] == needle@[k],
        decreases m - j,
    {
        if hay[at + j] != needle[j] {
            assert(hay@.subrange(at as int, at + m)[j as int] != needle@[j as int]);
            return false;
        }
        j += 1;
    }
    assert(hay@.subrange(at as int, at + m) =~= needle@);
    true
}

/// Whether `needle` occurs anywhere in `hay`.
pub fn contains_text(hay: &str, needle: &str) -> (r: bool)
    ensures
        r == text_contains(hay@, needle@),
{
    let h = chars_of(hay);
    let nd = chars_of(needle);
    let n = h.len();
    let m = nd.len();
    if m > n {
        return false;
    }
    let mut i: usize = 0;
    loop
        invariant
            n == hay@.len(),
            m == needle@.len(),
            h@ == hay@,
            nd@ == needle@,
            m <= n,
            i <= n - m,
            forall|k: int| 0 <= k < i ==> #[trigger] hay@.subrange(k, k + m) != needle@,
        decreases n - m - i,
    {
        if matches_at(&h, &nd, i) {
            assert(hay@.subrange(i as int, i + m) == needle@);
            return true;
        }
        if i == n - m {
            return false;
        }
        i += 1;
    }
}

/// The text the operating system gives for a wait on a child that is gone.
pub open spec fn no_child_text() -> Seq<char> {
    seq![
        'N', 'o', ' ', 'c', 'h', 'i', 'l', 'd', ' ', 'p', 'r', 'o', 'c', 'e', 's', 's', 'e', 's',
    ]
}

/// Classifies a failed wait by its error message: one that mentions
/// "No child processes" means the child was already reaped, any other is a
/// real failure.
pub fn wait_error_result(message: &str) -> (r: WaitResult)
    ensures
        r == (if text_contains(message@, no_child_text()) {
            WaitResult::NoChild
        } else {
            WaitResult::Failed
        }),
{
    let needle = "No child processes";
    proof {
        reveal_strlit("No child processes");
    }
    assert(needle@ =~= no_child_text());
    if contains_text(message, needle) {
        WaitResult::NoChild
    } else {
        WaitResult::Failed
    }
}

} // verus!
