//! Decisions of the patch rotation: reading back the path of the last
//! applied patch, and choosing what to do with the next pending patch.
use vstd::prelude::*;

verus! {

/// The characters with Unicode's `White_Space` property, which `str::trim`
/// removes.
pub open spec fn is_white_space(c: char) -> bool {
    let n: u32 = c as u32;
    ||| 0x9 <= n <= 0xD
    ||| n == 0x20
    ||| n == 0x85
    ||| n == 0xA0
    ||| n == 0x1680
    ||| 0x2000 <= n <= 0x200A
    ||| n == 0x2028
    ||| n == 0x2029
    ||| n == 0x202F
    ||| n == 0x205F
    ||| n == 0x3000
}

/// `t` is `s` with its leading and trailing white space removed.
pub open spec fn is_trim_of(s: Seq<char>, t: Seq<char>) -> bool {
    exists|a: int, b: int|
        #![trigger s.subrange(a, b)]
        {
            &&& 0 <= a <= b <= s.len()
            &&& t == s.subrange(a, b)
            &&& forall|i: int| 0 <= i < a ==> is_white_space(#[trigger] s[i])
            &&& forall|i: int| b <= i < s.len() ==> is_white_space(#[trigger] s[i])
            &&& a < b ==> !is_white_space(s[a]) && !is_white_space(s[b - 1])
        }
}

/// Calls `str::trim`, which (as its documentation says) returns the string
/// with leading and trailing characters of Unicode's `White_Space` property
/// removed.
#[verifier::external_body]
fn trim(s: &str) -> (t: &str)
    ensures
        is_trim_of(s@, t@),
{
    s.trim()
}

proof fn lemma_trim_empty_iff_all_white(s: Seq<char>, t: Seq<char>)
    requires
        is_trim_of(s, t),
    ensures
        t.len() == 0 <==> forall|i: int| 0 <= i < s.len() ==> is_white_space(#[trigger] s[i]),
{
    let (a, b) = choose|a: int, b: int|
        {
            &&& 0 <= a <= b <= s.len()
            &&& t == #[trigger] s.subrange(a, b)
            &&& forall|i: int| 0 <= i < a ==> is_white_space(#[trigger] s[i])
            &&& forall|i: int| b <= i < s.len() ==> is_white_space(#[trigger] s[i])
            &&& a < b ==> !is_white_space(s[a]) && !is_white_space(s[b - 1])
        };
    if t.len() == 0 {
        assert forall|i: int| 0 <= i < s.len() implies is_white_space(#[trigger] s[i]) by {
            if i >= b {
            } else {
                assert(i < a);
            }
        }
    } else {
        assert(!is_white_space(s[a]));
    }
}

/// The path of the last applied patch, read back from the file that records
/// it: the file's contents without surrounding white space, where anything
/// is left of them.
pub fn saved_patch_path(contents: &str) -> (r: Option<&str>)
    ensures
        r is None <==> forall|i: int| 0 <= i < contents@.len() ==> is_white_space(#[trigger] contents@[i]),
        r matches Some(path) ==> is_trim_of(contents@, path@) && path@.len() > 0,
{
    let trimmed = trim(contents);
    proof {
        lemma_trim_empty_iff_all_white(contents@, trimmed@);
    }
    if !trimmed.is_empty() {
        Some(trimmed)
    } else {
        None
    }
}

/// What to do with the patch directory.
pub enum PatchStep {
    /// No patch is pending: the rotation ends.
    Stop,
    /// Apply the pending patch `patch`, after reverting the patch `revert`
    /// where one is named. Where `report_outcome` holds, the outcome of the
    /// application is reported either way; otherwise only a success is.
    Apply { revert: Option<String>, patch: String, report_outcome: bool },
}

/// The next step of the patch rotation. `pending` is the first patch waiting
/// to be applied, `applied_dir_empty` tells whether no patch has been applied
/// yet, and `last_applied` is the recorded path of the last applied patch.
pub fn plan_patch_step(pending: Option<String>, applied_dir_empty: bool, last_applied: Option<String>) -> (r: PatchStep)
    ensures
        r is Stop <==> pending is None,
        r matches PatchStep::Apply { revert, patch, report_outcome } ==> {
            &&& pending == Some(patch)
            &&& report_outcome == applied_dir_empty
            &&& revert == if applied_dir_empty {
                None
            } else {
                last_applied
            }
        },
{
    match pending {
        None => PatchStep::Stop,
        Some(patch) => {
            if applied_dir_empty {
                PatchStep::Apply { revert: None, patch, report_outcome: true }
            } else {
                PatchStep::Apply { revert: last_applied, patch, report_outcome: false }
            }
        },
    }
}

} // verus!
