//! Class templates of a project: the registry `.mling/classes.toml`, and
//! what adding a class takes from it — the entry, the template parameters
//! derived from the new name, and the file it is written to.
use vstd::prelude::*;
use crate::expansion::{expand_template, param_views, template_expansion_of};
use crate::answers::keys_distinct;
use crate::casing::{camel_case, camel_case_of, kebab_case, kebab_case_of, pascal_case, pascal_case_of, snake_case, snake_case_of, uppercase, uppercase_of};
use crate::shell::ShellContext;
use crate::suggest::{insert_all, suggest_view, ItemView, Suggest, SuggestItem};
use crate::text::{concat, owned, str_eq};
use crate::toml_model::{toml_document, toml_document_of, entry_get, get_str, get_tables, item_str, item_tables, lemma_read_all_err, read_all, TomlItem};

verus! {

/// A `[[classes]]` entry of the registry.
#[derive(Debug, Clone)]
pub struct ClassEntry {
    /// Class type name, e.g. `subcommand`.
    pub name: String,
    /// Template path relative to `.mling/`, e.g. `classes/subcommand.rs`.
    pub template: String,
    /// Output directory relative to the project root, e.g. `src/command/`.
    pub output_dir: String,
    /// Short description shown in completions, may be empty.
    pub description: String,
}

/// An entry as plain values: name, template, output directory, description.
pub open spec fn class_view(c: ClassEntry) -> (Seq<char>, Seq<char>, Seq<char>, Seq<char>) {
    (c.name@, c.template@, c.output_dir@, c.description@)
}

pub open spec fn class_views(cs: Seq<ClassEntry>) -> Seq<(Seq<char>, Seq<char>, Seq<char>, Seq<char>)> {
    cs.map_values(|c: ClassEntry| class_view(c))
}

/// A `[[classes]]` table: `name`, `template` and `output-dir` are required
/// (the first one missing is reported), `description` defaults to empty.
pub open spec fn read_class(t: Seq<(String, TomlItem)>) -> Result<
    (Seq<char>, Seq<char>, Seq<char>, Seq<char>),
    Seq<char>,
> {
    match item_str(entry_get(t, "name"@)) {
        None => Err("[[classes]] entry is missing `name`"@),
        Some(n) => match item_str(entry_get(t, "template"@)) {
            None => Err("[[classes]] entry is missing `template`"@),
            Some(tp) => match item_str(entry_get(t, "output-dir"@)) {
                None => Err("[[classes]] entry is missing `output-dir`"@),
                Some(o) => Ok(
                    (
                        n,
                        tp,
                        o,
                        match item_str(entry_get(t, "description"@)) {
                            Some(d) => d,
                            None => Seq::empty(),
                        },
                    ),
                ),
            },
        },
    }
}

/// The entries of a registry, or the error of its first bad entry.
pub open spec fn classes_of(doc: Seq<(String, TomlItem)>) -> Result<
    Seq<(Seq<char>, Seq<char>, Seq<char>, Seq<char>)>,
    Seq<char>,
> {
    read_all(
        item_tables(entry_get(doc, "classes"@)),
        |t: Seq<(String, TomlItem)>| read_class(t),
        item_tables(entry_get(doc, "classes"@)).len() as int,
    )
}

fn required(t: &Vec<(String, TomlItem)>, key: &str) -> (r: Option<String>)
    ensures
        match r {
            Some(s) => item_str(entry_get(t@, key@)) == Some(s@),
            None => item_str(entry_get(t@, key@)) is None,
        },
{
    match get_str(t, key) {
        Some(s) => Some(s.clone()),
        None => None,
    }
}

/// The entries of a class registry, read from its parsed document.
pub fn classes_from_toml(doc: &Vec<(String, TomlItem)>) -> (r: Result<Vec<ClassEntry>, String>)
    ensures
        match classes_of(doc@) {
            Ok(cs) => r matches Ok(v) && class_views(v@) == cs,
            Err(e) => r matches Err(m) && m@ == e,
        },
{
    let ghost f = |t: Seq<(String, TomlItem)>| read_class(t);
    let none: Vec<Vec<(String, TomlItem)>> = Vec::new();
    let tables = match get_tables(doc, "classes") {
        Some(v) => v,
        None => &none,
    };
    let mut entries: Vec<ClassEntry> = Vec::new();
    let mut k: usize = 0;
    proof {
        assert(class_views(entries@) =~= Seq::<(Seq<char>, Seq<char>, Seq<char>, Seq<char>)>::empty());
    }
    while k < tables.len()
        invariant
            f == (|t: Seq<(String, TomlItem)>| read_class(t)),
            tables@ == item_tables(entry_get(doc@, "classes"@)),
            k <= tables@.len(),
            read_all(tables@, f, k as int) matches Ok(cs) && class_views(entries@) == cs,
        decreases tables@.len() - k,
    {
        let t = &tables[k];
        let name = match required(t, "name") {
            Some(x) => x,
            None => {
                proof {
                    lemma_read_all_err(tables@, f, k + 1, tables@.len() as int);
                }
                return Err(owned("[[classes]] entry is missing `name`"));
            },
        };
        let template = match required(t, "template") {
            Some(x) => x,
            None => {
                proof {
                    lemma_read_all_err(tables@, f, k + 1, tables@.len() as int);
                }
                return Err(owned("[[classes]] entry is missing `template`"));
            },
        };
        let output_dir = match required(t, "output-dir") {
            Some(x) => x,
            None => {
                proof {
                    lemma_read_all_err(tables@, f, k + 1, tables@.len() as int);
                }
                return Err(owned("[[classes]] entry is missing `output-dir`"));
            },
        };
        let description = match required(t, "description") {
            Some(x) => x,
            None => String::new(),
        };
        let ghost before = class_views(entries@);
        entries.push(ClassEntry { name, template, output_dir, description });
        proof {
            assert(class_views(entries@) =~= before.push(class_view(entries@.last())));
        }
        k = k + 1;
    }
    Ok(entries)
}

/// The index of the first entry named `n` among `cs[..k]`, or -1.
pub open spec fn class_index(cs: Seq<(Seq<char>, Seq<char>, Seq<char>, Seq<char>)>, n: Seq<char>, k: int) -> int
    decreases k,
{
    if k <= 0 {
        -1
    } else if class_index(cs, n, k - 1) != -1 {
        class_index(cs, n, k - 1)
    } else if cs[k - 1].0 == n {
        k - 1
    } else {
        -1
    }
}

/// The first entry of the registry named `class_name`.
pub fn find_class(classes: &Vec<ClassEntry>, class_name: &str) -> (r: Option<usize>)
    ensures
        match r {
            Some(i) => i == class_index(class_views(classes@), class_name@, classes@.len() as int),
            None => class_index(class_views(classes@), class_name@, classes@.len() as int) == -1,
        },
{
    let ghost cs = class_views(classes@);
    let mut k: usize = 0;
    while k < classes.len()
        invariant
            cs == class_views(classes@),
            k <= cs.len(),
            class_index(cs, class_name@, k as int) == -1,
        decreases cs.len() - k,
    {
        if str_eq(classes[k].name.as_str(), class_name) {
            proof {
                assert(class_index(cs, class_name@, k + 1) == k);
                lemma_class_index_stays(cs, class_name@, k + 1, cs.len() as int);
            }
            return Some(k);
        }
        k = k + 1;
    }
    None
}

proof fn lemma_class_index_stays(cs: Seq<(Seq<char>, Seq<char>, Seq<char>, Seq<char>)>, n: Seq<char>, k: int, m: int)
    requires
        0 <= k <= m,
        class_index(cs, n, k) != -1,
    ensures
        class_index(cs, n, m) == class_index(cs, n, k),
    decreases m - k,
{
    if k < m {
        lemma_class_index_stays(cs, n, k, m - 1);
    }
}

/// The template parameters derived from the name of a new class instance:
/// its snake_case, PascalCase, kebab-case, UPPER_SNAKE_CASE and camelCase
/// forms, under those names.
pub open spec fn class_params_of(name: Seq<char>) -> Seq<(Seq<char>, Seq<char>)> {
    seq![
        ("snake_case"@, snake_case_of(name)),
        ("pascal_case"@, pascal_case_of(name)),
        ("kebab_case"@, kebab_case_of(name)),
        ("upper_snake_case"@, uppercase_of(snake_case_of(name))),
        ("camel_case"@, camel_case_of(name)),
    ]
}

/// The template parameters for a new class instance named `name`.
pub fn class_params(name: &str) -> (r: Vec<(String, String)>)
    ensures
        r@.map_values(|p: (String, String)| (p.0@, p.1@)) == class_params_of(name@),
{
    let snake = snake_case(name);
    let pascal = pascal_case(name);
    let kebab = kebab_case(name);
    let upper_snake = uppercase(snake.as_str());
    let camel = camel_case(name);
    let mut r: Vec<(String, String)> = Vec::new();
    r.push((owned("snake_case"), snake));
    r.push((owned("pascal_case"), pascal));
    r.push((owned("kebab_case"), kebab));
    r.push((owned("upper_snake_case"), upper_snake));
    r.push((owned("camel_case"), camel));
    proof {
        assert(r@.map_values(|p: (String, String)| (p.0@, p.1@)) =~= class_params_of(name@));
    }
    r
}

/// The file a new class instance is written to, in its output directory:
/// its snake_case name with `.rs`.
pub fn class_output_file(name: &str) -> (r: String)
    ensures
        r@ == snake_case_of(name@) + ".rs"@,
{
    let snake = snake_case(name);
    concat(snake.as_str(), ".rs")
}

/// The suggestion for a class entry: its name, with its description when
/// it has one.
pub open spec fn class_item(c: (Seq<char>, Seq<char>, Seq<char>, Seq<char>)) -> ItemView {
    if c.3.len() == 0 {
        (c.0, None)
    } else {
        (c.0, Some(c.3))
    }
}

/// The completions for `class-add`: file completion unless the word before
/// the cursor is `class-add`; then the registered classes (none when the
/// registry could not be read).
pub fn class_add_suggestions(ctx: &ShellContext, classes: Option<Vec<ClassEntry>>) -> (r: Suggest)
    ensures
        ctx.previous_word@ != "class-add"@ ==> r is FileCompletion,
        ctx.previous_word@ == "class-add"@ ==> suggest_view(r) == Some(
            match classes {
                None => Seq::<ItemView>::empty(),
                Some(v) => insert_all(
                    Seq::empty(),
                    class_views(v@).map_values(|c: (Seq<char>, Seq<char>, Seq<char>, Seq<char>)| class_item(c)),
                    v@.len() as int,
                ),
            },
        ),
{
    if !str_eq(ctx.previous_word.as_str(), "class-add") {
        return Suggest::file_comp();
    }
    let mut suggest = Suggest::new();
    let classes = match classes {
        Some(v) => v,
        None => {
            return suggest;
        },
    };
    let ghost items = class_views(classes@).map_values(
        |c: (Seq<char>, Seq<char>, Seq<char>, Seq<char>)| class_item(c),
    );
    let mut k: usize = 0;
    while k < classes.len()
        invariant
            k <= classes@.len(),
            items == class_views(classes@).map_values(
                |c: (Seq<char>, Seq<char>, Seq<char>, Seq<char>)| class_item(c),
            ),
            suggest_view(suggest) == Some(insert_all(Seq::empty(), items, k as int)),
        decreases classes@.len() - k,
    {
        let entry = &classes[k];
        let item = if entry.description.unicode_len() == 0 {
            SuggestItem::new(entry.name.clone())
        } else {
            SuggestItem::new_with_desc(entry.name.clone(), entry.description.clone())
        };
        proof {
            assert(item@ == items[k as int]);
        }
        suggest.insert(item);
        k = k + 1;
    }
    suggest
}

/// The class entries of a `.mling/classes.toml` file: its text is parsed
/// as TOML (a text that is not TOML is refused with the parser's message),
/// then read as `classes_from_toml` reads a document.
pub fn parse_classes(content: &str) -> (r: Result<Vec<ClassEntry>, String>)
    ensures
        match toml_document_of(content@) {
            Err(e) => r matches Err(m) && m@ == e,
            Ok(doc) => match classes_of(doc) {
                Ok(cs) => r matches Ok(v) && class_views(v@) == cs,
                Err(e) => r matches Err(m) && m@ == e,
            },
        },
{
    match toml_document(content) {
        Ok(doc) => classes_from_toml(&doc),
        Err(e) => Err(e),
    }
}

/// The class parameters have distinct names.
proof fn lemma_class_param_names(name: Seq<char>)
    ensures
        keys_distinct(class_params_of(name)),
{
    reveal_strlit("snake_case");
    reveal_strlit("pascal_case");
    reveal_strlit("kebab_case");
    reveal_strlit("upper_snake_case");
    reveal_strlit("camel_case");
    let ps = class_params_of(name);
    assert forall|i: int, j: int| 0 <= i < j < ps.len() implies #[trigger] ps[i].0 != #[trigger] ps[j].0 by {
        assert(ps[i].0[0] != ps[j].0[0] || ps[i].0.len() != ps[j].0.len());
    }
}

/// A class file: the class template expanded with the class parameters of
/// `name` (its name in each case style), substituted in some order of
/// them. Expansion fails exactly when the template's implementation areas
/// are malformed.
pub fn class_file_content(template: &str, name: &str) -> (r: Option<String>)
    ensures
        (r is Some) == (template_expansion_of(template@, Seq::empty()) is Some),
        r matches Some(t) ==> exists|ps: Seq<(Seq<char>, Seq<char>)>|
            ps.to_multiset() == class_params_of(name@).to_multiset() && #[trigger] template_expansion_of(
                template@,
                ps,
            ) == Some(t@),
{
    let params = class_params(name);
    proof {
        lemma_class_param_names(name@);
        assert(param_views(params@) =~= class_params_of(name@));
    }
    expand_template(template, &params)
}

} // verus!
