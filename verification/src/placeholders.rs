//! Rendering an action's argument templates for a file.
use vstd::prelude::*;
use crate::paths::{ext_from_name, ext_of, file_name_of, parent_of, path_file_name, path_parent, stem_from_name, stem_of};
use crate::text::{lemma_replace_absent, replace_all, replace_all_exec};
use crate::types::{ActionTemplate, WatchRule};

verus! {

/// The parts of a file's path that placeholders stand for.
pub struct PathParts {
    pub dir: String,
    pub filename: String,
    pub stem: String,
    pub ext: String,
}

/// An optional text, or the empty text when there is none.
pub open spec fn or_empty(o: Option<Seq<char>>) -> Seq<char> {
    match o {
        Some(s) => s,
        None => Seq::<char>::empty(),
    }
}

/// Whether `parts` are the parts of the path `file`: its parent, its final
/// component, that component's stem and extension, each empty when absent.
pub open spec fn parts_of(file: Seq<char>, parts: PathParts) -> bool {
    &&& parts.dir@ == or_empty(path_parent(file))
    &&& parts.filename@ == or_empty(path_file_name(file))
    &&& parts.stem@ == (match path_file_name(file) {
        Some(n) => stem_of(n),
        None => Seq::<char>::empty(),
    })
    &&& parts.ext@ == (match path_file_name(file) {
        Some(n) => or_empty(ext_of(n)),
        None => Seq::<char>::empty(),
    })
}

/// One argument template with its placeholders substituted, one placeholder
/// after the other in this order: `{file}`, `{dir}`, `{filename}`, `{stem}`,
/// `{ext}`, `{rule}`.
pub open spec fn render_arg(
    arg: Seq<char>,
    file: Seq<char>,
    dir: Seq<char>,
    filename: Seq<char>,
    stem: Seq<char>,
    ext: Seq<char>,
    rule_name: Seq<char>,
) -> Seq<char> {
    let a1 = replace_all(arg, "{file}"@, file);
    let a2 = replace_all(a1, "{dir}"@, dir);
    let a3 = replace_all(a2, "{filename}"@, filename);
    let a4 = replace_all(a3, "{stem}"@, stem);
    let a5 = replace_all(a4, "{ext}"@, ext);
    replace_all(a5, "{rule}"@, rule_name)
}

/// Every argument template rendered for the given file, parts and rule name.
pub open spec fn render_all(
    args: Seq<Seq<char>>,
    file: Seq<char>,
    parts: PathParts,
    rule_name: Seq<char>,
) -> Seq<Seq<char>> {
    args.map_values(
        |a: Seq<char>|
            render_arg(a, file, parts.dir@, parts.filename@, parts.stem@, parts.ext@, rule_name),
    )
}

/// One argument template rendered.
fn render_one(arg: &str, file: &str, parts: &PathParts, rule_name: &str) -> (res: String)
    ensures
        res@ == render_arg(
            arg@,
            file@,
            parts.dir@,
            parts.filename@,
            parts.stem@,
            parts.ext@,
            rule_name@,
        ),
{
    proof {
        reveal_strlit("{file}");
        reveal_strlit("{dir}");
        reveal_strlit("{filename}");
        reveal_strlit("{stem}");
        reveal_strlit("{ext}");
        reveal_strlit("{rule}");
    }
    let a1 = replace_all_exec(arg, "{file}", file);
    let a2 = replace_all_exec(a1.as_str(), "{dir}", parts.dir.as_str());
    let a3 = replace_all_exec(a2.as_str(), "{filename}", parts.filename.as_str());
    let a4 = replace_all_exec(a3.as_str(), "{stem}", parts.stem.as_str());
    let a5 = replace_all_exec(a4.as_str(), "{ext}", parts.ext.as_str());
    replace_all_exec(a5.as_str(), "{rule}", rule_name)
}

/// The argument templates rendered for a file whose path parts are given.
pub fn render_with_parts(template: &ActionTemplate, file: &str, parts: &PathParts, rule_name: &str) -> (res:
    Vec<String>)
    ensures
        res.deep_view() == render_all(template.arguments.deep_view(), file@, *parts, rule_name@),
{
    let n: usize = template.arguments.len();
    let mut out: Vec<String> = Vec::new();
    let mut i: usize = 0;
    while i < n
        invariant
            n == template.arguments@.len(),
            i <= n,
            out.deep_view() == render_all(template.arguments.deep_view(), file@, *parts, rule_name@).take(
                i as int,
            ),
        decreases n - i,
    {
        let r = render_one(template.arguments[i].as_str(), file, parts, rule_name);
        assert(template.arguments.deep_view()[i as int] == template.arguments@[i as int]@);
        let ghost before = out.deep_view();
        out.push(r);
        assert(out.deep_view() =~= before.push(r@));
        i = i + 1;
        assert(out.deep_view() =~= render_all(
            template.arguments.deep_view(),
            file@,
            *parts,
            rule_name@,
        ).take(i as int));
    }
    assert(out.deep_view() =~= render_all(template.arguments.deep_view(), file@, *parts, rule_name@));
    out
}

/// The parts of a file's path.
pub fn path_parts(file: &str) -> (parts: PathParts)
    ensures
        parts_of(file@, parts),
{
    let dir = match parent_of(file) {
        Some(d) => d,
        None => String::new(),
    };
    let (filename, stem, ext) = match file_name_of(file) {
        Some(n) => {
            let stem = stem_from_name(n.as_str());
            let ext = match ext_from_name(n.as_str()) {
                Some(e) => e,
                None => String::new(),
            };
            (n, stem, ext)
        },
        None => (String::new(), String::new(), String::new()),
    };
    PathParts { dir, filename, stem, ext }
}

/// The action's argument templates rendered for `file` and `rule`: each
/// placeholder replaced by the file's path, directory, file name, stem,
/// extension, or the rule's name.
pub fn render_arguments(template: &ActionTemplate, file: &str, rule: &WatchRule) -> (res: Vec<String>)
    ensures
        exists|parts: PathParts|
            parts_of(file@, parts) && res.deep_view() == render_all(
                template.arguments.deep_view(),
                file@,
                parts,
                rule.name@,
            ),
{
    let parts = path_parts(file);
    render_with_parts(template, file, &parts, rule.name.as_str())
}

/// An argument without a `{` is passed to the action as it is.
pub proof fn lemma_plain_argument_unchanged(
    arg: Seq<char>,
    file: Seq<char>,
    dir: Seq<char>,
    filename: Seq<char>,
    stem: Seq<char>,
    ext: Seq<char>,
    rule_name: Seq<char>,
)
    requires
        forall|i: int| 0 <= i < arg.len() ==> #[trigger] arg[i] != '{',
    ensures
        render_arg(arg, file, dir, filename, stem, ext, rule_name) == arg,
{
    reveal_strlit("{file}");
    reveal_strlit("{dir}");
    reveal_strlit("{filename}");
    reveal_strlit("{stem}");
    reveal_strlit("{ext}");
    reveal_strlit("{rule}");
    lemma_replace_absent(arg, "{file}"@, file);
    lemma_replace_absent(arg, "{dir}"@, dir);
    lemma_replace_absent(arg, "{filename}"@, filename);
    lemma_replace_absent(arg, "{stem}"@, stem);
    lemma_replace_absent(arg, "{ext}"@, ext);
    lemma_replace_absent(arg, "{rule}"@, rule_name);
}

/// The argument `{file}` becomes the file's path, when no `{` appears in it.
pub proof fn lemma_file_placeholder(
    file: Seq<char>,
    dir: Seq<char>,
    filename: Seq<char>,
    stem: Seq<char>,
    ext: Seq<char>,
    rule_name: Seq<char>,
)
    requires
        forall|i: int| 0 <= i < file.len() ==> #[trigger] file[i] != '{',
    ensures
        render_arg("{file}"@, file, dir, filename, stem, ext, rule_name) == file,
{
    reveal_strlit("{file}");
    let pat = "{file}"@;
    assert(pat.take(pat.len() as int) =~= pat);
    assert(pat.skip(pat.len() as int) =~= Seq::<char>::empty());
    assert(replace_all(Seq::<char>::empty(), pat, file) == Seq::<char>::empty());
    assert(replace_all(pat, pat, file) =~= file);
    lemma_plain_argument_unchanged(file, file, dir, filename, stem, ext, rule_name);
    reveal_strlit("{dir}");
    reveal_strlit("{filename}");
    reveal_strlit("{stem}");
    reveal_strlit("{ext}");
    reveal_strlit("{rule}");
    lemma_replace_absent(file, "{dir}"@, dir);
    lemma_replace_absent(file, "{filename}"@, filename);
    lemma_replace_absent(file, "{stem}"@, stem);
    lemma_replace_absent(file, "{ext}"@, ext);
    lemma_replace_absent(file, "{rule}"@, rule_name);
}

} // verus!
