//! Package metadata: what the registry sends, what is kept of it, and
//! where it lies in the mirror tree.

use crate::options::CliOpts;
use crate::text::{chars_of, push_all, text_of};
use vstd::prelude::*;

pub mod manifest;
pub mod package_index;
pub mod sparse_metadata;

verus! {

/// The text without one trailing slash, if it has one.
pub open spec fn without_trailing_slash(s: Seq<char>) -> Seq<char> {
    if s.len() > 0 && s.last() == '/' {
        s.drop_last()
    } else {
        s
    }
}

/// The text without one leading slash, if it has one.
pub open spec fn without_leading_slash(s: Seq<char>) -> Seq<char> {
    if s.len() > 0 && s[0] == '/' {
        s.drop_first()
    } else {
        s
    }
}

/// Where the metadata document of a package lies below `output`.
pub open spec fn spec_local_metadata_path(output: Seq<char>, package: Seq<char>) -> Seq<char> {
    without_trailing_slash(output) + seq!['/'] + package + "/index.json"@
}

/// Where the index of a package lies below `output`.
pub open spec fn spec_local_metadata_idx_path(output: Seq<char>, package: Seq<char>) -> Seq<char> {
    without_trailing_slash(output) + seq!['/'] + package + "/index.json.idx"@
}

/// The characters of a text without one trailing slash.
pub fn trim_trailing_slash(s: &str) -> (r: Vec<char>)
    ensures
        r@ == without_trailing_slash(s@),
{
    let mut chars = chars_of(s);
    let n = chars.len();
    if n > 0 && chars[n - 1] == '/' {
        chars.pop();
    }
    chars
}

/// The characters of a text without one leading slash.
pub fn trim_leading_slash(s: &Vec<char>) -> (r: Vec<char>)
    ensures
        r@ == without_leading_slash(s@),
{
    let n = s.len();
    let mut out: Vec<char> = Vec::new();
    if n > 0 && s[0] == '/' {
        let mut i: usize = 1;
        assert(s@.drop_first().take(0) =~= Seq::<char>::empty());
        while i < n
            invariant
                n == s@.len(),
                1 <= i <= n,
                out@ == s@.drop_first().take(i - 1),
            decreases n - i,
        {
            out.push(s[i]);
            assert(s@.drop_first().take(i as int) =~= s@.drop_first().take(i - 1).push(s@[i as int]));
            i += 1;
        }
        assert(s@.drop_first().take(n - 1) =~= s@.drop_first());
    } else {
        push_all(&mut out, s);
        assert(Seq::<char>::empty() + s@ =~= s@);
    }
    out
}

/// `<output>/<package><tail>`, with one trailing slash of `output` dropped.
fn below_output(output: &str, package: &str, tail: &str) -> (r: String)
    ensures
        r@ == without_trailing_slash(output@) + seq!['/'] + package@ + tail@,
{
    let mut out = trim_trailing_slash(output);
    out.push('/');
    let p = chars_of(package);
    push_all(&mut out, &p);
    let t = chars_of(tail);
    push_all(&mut out, &t);
    let n = out.len();
    let r = text_of(&out, 0, n);
    assert(out@.subrange(0, n as int) =~= out@);
    assert(out@ =~= without_trailing_slash(output@) + seq!['/'] + package@ + tail@);
    r
}

/// Where the metadata document of a package lies in the mirror tree.
pub fn local_metadata_path(opts: &CliOpts, package: &str) -> (r: String)
    ensures
        r@ == spec_local_metadata_path(opts.output@, package@),
{
    below_output(opts.output.as_str(), package, "/index.json")
}

/// Where the index of a package lies in the mirror tree.
pub fn local_metadata_idx_path(opts: &CliOpts, package: &str) -> (r: String)
    ensures
        r@ == spec_local_metadata_idx_path(opts.output@, package@),
{
    below_output(opts.output.as_str(), package, "/index.json.idx")
}

} // verus!
