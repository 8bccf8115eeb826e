//! What a generated Typst document needs beside it.

use vstd::prelude::*;

use crate::text::views;

verus! {

/// Typst declarations prepended to generated documents using this converter.
pub const RUNTIME_PRELUDE: &'static str = r#"#import "_mitex/specs/mod.typ": mitex-scope
#let mitex-eval(code) = eval("$" + code + "$", scope: mitex-scope)
"#;

/// Typst declarations prepended to generated documents using this converter.
pub fn runtime_prelude() -> (r: &'static str)
    ensures
        r@ == RUNTIME_PRELUDE@,
{
    RUNTIME_PRELUDE
}

/// Where the files of the scope lie, below the output directory.
pub open spec fn runtime_file_names() -> Seq<Seq<char>> {
    seq![
        "_mitex/specs/prelude.typ"@,
        "_mitex/specs/latex/standard.typ"@,
        "_mitex/specs/mod.typ"@,
        "_mitex/LICENSE"@,
        "_mitex/UPSTREAM.md"@,
    ]
}

/// Where the files of the scope lie, below the output directory.
pub fn runtime_files() -> (r: Vec<String>)
    ensures
        views(r@) == runtime_file_names(),
{
    let mut out: Vec<String> = Vec::new();
    out.push("_mitex/specs/prelude.typ".to_owned());
    out.push("_mitex/specs/latex/standard.typ".to_owned());
    out.push("_mitex/specs/mod.typ".to_owned());
    out.push("_mitex/LICENSE".to_owned());
    out.push("_mitex/UPSTREAM.md".to_owned());
    assert(views(out@) =~= runtime_file_names());
    out
}

/// Whether a file has to be written: it is not there, or its bytes differ.
pub open spec fn differs(existing: Option<Seq<u8>>, content: Seq<u8>) -> bool {
    existing != Some(content)
}

/// The bytes of a file, where there is one.
pub open spec fn bytes_view(b: Option<Vec<u8>>) -> Option<Seq<u8>> {
    match b {
        Some(v) => Some(v@),
        None => None,
    }
}

/// Whether a file has to be written.
pub fn has_changed(existing: &Option<Vec<u8>>, content: &[u8]) -> (r: bool)
    ensures
        r == differs(bytes_view(*existing), content@),
{
    match existing {
        None => true,
        Some(old_bytes) => {
            if old_bytes.len() != content.len() {
                return true;
            }
            let mut i: usize = 0;
            while i < content.len()
                invariant
                    i <= content@.len(),
                    bytes_view(*existing) == Some(old_bytes@),
                    old_bytes@.len() == content@.len(),
                    forall|j: int| 0 <= j < i ==> old_bytes@[j] == content@[j],
                decreases content@.len() - i,
            {
                if old_bytes[i] != content[i] {
                    return true;
                }
                i += 1;
            }
            assert(old_bytes@ =~= content@);
            false
        },
    }
}

/// The positions, up to `n`, of the files that have to be written.
pub open spec fn changed_files(
    existing: Seq<Option<Vec<u8>>>,
    contents: Seq<Vec<u8>>,
    n: int,
) -> Seq<usize>
    decreases n,
{
    if n <= 0 {
        Seq::empty()
    } else {
        let before = changed_files(existing, contents, n - 1);
        if n > existing.len() || differs(bytes_view(existing[n - 1]), contents[n - 1]@) {
            before.push((n - 1) as usize)
        } else {
            before
        }
    }
}

/// Which files of the scope have to be written beside the generated Typst
/// document, by what is there. Existing files are only rewritten when their bytes
/// differ.
pub fn prepare_runtime(existing: &[Option<Vec<u8>>], contents: &[Vec<u8>]) -> (r: Vec<usize>)
    ensures
        r@ == changed_files(existing@, contents@, contents@.len() as int),
{
    let mut out: Vec<usize> = Vec::new();
    let mut i: usize = 0;
    while i < contents.len()
        invariant
            i <= contents@.len(),
            out@ == changed_files(existing@, contents@, i as int),
        decreases contents@.len() - i,
    {
        if i >= existing.len() || has_changed(&existing[i], contents[i].as_slice()) {
            out.push(i);
        }
        i += 1;
    }
    out
}

/// After the files that have to be written are written, none has to be.
pub proof fn law_written_once(existing: Seq<Option<Vec<u8>>>, contents: Seq<Vec<u8>>, n: int)
    requires
        n <= contents.len() == existing.len(),
        forall|i: int|
            0 <= i < contents.len() ==> bytes_view(#[trigger] existing[i]) == Some(contents[i]@),
    ensures
        changed_files(existing, contents, n) == Seq::<usize>::empty(),
    decreases n,
{
    if n > 0 {
        law_written_once(existing, contents, n - 1);
        assert(bytes_view(existing[n - 1]) == Some(contents[n - 1]@));
    }
}

} // verus!
