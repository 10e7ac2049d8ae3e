//! Script merging: the local scripts of the pages in one file, each
//! wrapped in an immediately invoked function so that its declarations
//! stay its own.

use vstd::prelude::*;
use crate::build::dist_files::{file_content, files_view, normalize_path, normalized, read_file, DistFiles};
use crate::text::{push_char, strs_view, trim_start_char, trim_start_char_exec};

verus! {

/// The part of a merged script from one file.
pub open spec fn js_part(src: Seq<char>, content: Seq<char>) -> Seq<char> {
    "// Source: "@ + src + seq!['\n'] + ";(function(){\n"@ + content + "\n})();\n"@
}

/// The scripts of `srcs` merged in order, separated by a newline; srcs
/// with no file are left out.
pub open spec fn merged_js(files: Seq<(Seq<char>, Seq<char>)>, srcs: Seq<Seq<char>>) -> Seq<char>
    decreases srcs.len(),
{
    if srcs.len() == 0 {
        seq![]
    } else {
        let prev = merged_js(files, srcs.drop_last());
        let s = srcs.last();
        match normalized(trim_start_char(s, '/')) {
            None => prev,
            Some(p) => match file_content(files, p) {
                None => prev,
                Some(c) => if prev.len() == 0 {
                    js_part(s, c)
                } else {
                    prev + seq!['\n'] + js_part(s, c)
                },
            },
        }
    }
}

/// Merge the scripts of `srcs` (URL paths into `dist/`), in order, each
/// preceded by a source comment and wrapped in `;(function(){ .. })();`;
/// a src with no file is skipped.
pub fn merge_js_files(srcs: &[String], files: &DistFiles) -> (r: String)
    ensures
        r@ == merged_js(files_view(*files), strs_view(srcs@)),
{
    let ghost fv = files_view(*files);
    let ghost sv = strs_view(srcs@);
    let mut merged = String::new();
    let mut i: usize = 0;
    while i < srcs.len()
        invariant
            i <= srcs@.len(),
            fv == files_view(*files),
            sv == strs_view(srcs@),
            merged@ == merged_js(fv, sv.subrange(0, i as int)),
        decreases srcs@.len() - i,
    {
        assert(sv.subrange(0, i + 1).drop_last() =~= sv.subrange(0, i as int));
        assert(sv.subrange(0, i + 1).last() == srcs@[i as int]@);
        let src = srcs[i].as_str();
        let relative = trim_start_char_exec(src, '/');
        if let Some(path) = normalize_path(relative.as_str()) {
            if let Some(content) = read_file(files, path.as_str()) {
                if !merged.as_str().is_empty() {
                    push_char(&mut merged, '\n');
                }
                merged.append("// Source: ");
                merged.append(src);
                push_char(&mut merged, '\n');
                merged.append(";(function(){\n");
                merged.append(content.as_str());
                merged.append("\n})();\n");
            }
        }
        i = i + 1;
    }
    assert(sv.subrange(0, srcs@.len() as int) =~= sv);
    merged
}

} // verus!
