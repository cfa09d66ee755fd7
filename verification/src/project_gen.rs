//! Generating a project from a template: which parameters the template is
//! expanded with, which generated files are hidden again, and what becomes
//! of each entry of the template tree.
use vstd::prelude::*;
use crate::expansion::{expand_template, param_views, template_expansion_of};
use crate::answers::{entries_map, keys_distinct, pair_views};
use crate::answers::Answers;
use crate::packages::EntryKind;
use crate::rule_solver::{eval_rule, rule_value, DisplayRule, HideFileRule, TemplateRules};
use crate::text::{chars_of, is_prefix, starts_with, str_eq, string_of_range, views};

verus! {

/// The checklist the user fills in, in the project directory.
pub const CHECKLIST_FILENAME: &'static str = "checklist.toml";

/// The rule file of a template.
pub const RULE_FILENAME: &'static str = "rule.toml";

/// The directory below `.mling` that caches a template.
pub const CACHE_DIR_NAME: &'static str = "tmpl-cache";

/// The template's own `.mling` tree.
pub const TEMPLATE_MLING_DIR: &'static str = "tmpl_.mling";

/// The prefix of the entries that take part in expansion.
pub const TMPL_PREFIX: &'static str = "tmpl_";

/// `s` without the prefix `p`, if it has it.
pub open spec fn strip_prefix_spec(s: Seq<char>, p: Seq<char>) -> Seq<char> {
    if is_prefix(p, s) {
        s.skip(p.len() as int)
    } else {
        s
    }
}

/// `s` without any number of leading copies of `p` (a nonempty text).
pub open spec fn strip_leading(s: Seq<char>, p: Seq<char>) -> Seq<char>
    decreases s.len(),
{
    if p.len() > 0 && is_prefix(p, s) {
        strip_leading(s.skip(p.len() as int), p)
    } else {
        s
    }
}

/// The name an entry of the template gets in the project: its name without
/// the `tmpl_` prefix.
pub fn target_name(name: &str) -> (r: String)
    ensures
        r@ == strip_prefix_spec(name@, "tmpl_"@),
{
    if starts_with(name, "tmpl_") {
        let v = chars_of(name);
        proof {
            reveal_strlit("tmpl_");
        }
        let r = string_of_range(&v, 5, v.len());
        proof {
            assert(r@ =~= name@.skip(5));
        }
        r
    } else {
        crate::text::owned(name)
    }
}

/// What becomes of an entry of the template tree.
#[derive(Debug, PartialEq, Eq)]
pub enum EntryAction {
    /// The template's `.mling` tree: copied into the project's `.mling`.
    CopyMling,
    /// A directory: expanded into the directory of this name.
    Descend(String),
    /// A template file: expanded into the file of this name.
    Expand(String),
    /// Anything else is left out.
    Skip,
}

/// What becomes of an entry of the template tree: the `tmpl_.mling`
/// directory is copied, directories are expanded below their target name,
/// files named `tmpl_...` are expanded into their target name, and other
/// entries are left out.
pub fn expansion_action(name: &str, kind: EntryKind) -> (r: EntryAction)
    ensures
        match r {
            EntryAction::CopyMling => name@ == "tmpl_.mling"@ && kind == EntryKind::Dir,
            EntryAction::Descend(t) => !(name@ == "tmpl_.mling"@) && kind == EntryKind::Dir && t@
                == strip_prefix_spec(name@, "tmpl_"@),
            EntryAction::Expand(t) => kind == EntryKind::File && is_prefix("tmpl_"@, name@) && t@
                == strip_prefix_spec(name@, "tmpl_"@),
            EntryAction::Skip => kind != EntryKind::Dir && !(kind == EntryKind::File && is_prefix(
                "tmpl_"@,
                name@,
            )),
        },
{
    if str_eq(name, "tmpl_.mling") && kind == EntryKind::Dir {
        EntryAction::CopyMling
    } else if kind == EntryKind::Dir {
        EntryAction::Descend(target_name(name))
    } else if kind == EntryKind::File && starts_with(name, "tmpl_") {
        EntryAction::Expand(target_name(name))
    } else {
        EntryAction::Skip
    }
}

/// The parameters a template is expanded with: the answers, and each
/// display block whose rule holds for the answers, with an empty value.
pub open spec fn display_params(answers: Map<Seq<char>, Seq<char>>, ds: Seq<DisplayRule>, k: int) -> Map<
    Seq<char>,
    Seq<char>,
>
    decreases k,
{
    if k <= 0 {
        answers
    } else if rule_value(ds[k - 1].rule@, answers) {
        display_params(answers, ds, k - 1).insert(ds[k - 1].name@, Seq::empty())
    } else {
        display_params(answers, ds, k - 1)
    }
}

/// The parameters a template is expanded with, from the resolved answers.
pub fn project_params(answers: &Answers, rules: &TemplateRules) -> (r: Answers)
    ensures
        r@ == display_params(answers@, rules.display@, rules.display@.len() as int),
{
    let mut params = answers.clone();
    let mut k: usize = 0;
    while k < rules.display.len()
        invariant
            k <= rules.display@.len(),
            params@ == display_params(answers@, rules.display@, k as int),
        decreases rules.display@.len() - k,
    {
        let d = &rules.display[k];
        if eval_rule(d.rule.as_str(), answers) {
            params.insert(d.name.clone(), String::new());
        }
        k = k + 1;
    }
    params
}

/// The files removed after expansion: for each hide-file rule that holds
/// for the answers, its file without leading `./`, in order.
pub open spec fn hidden_of(answers: Map<Seq<char>, Seq<char>>, hs: Seq<HideFileRule>, k: int) -> Seq<Seq<char>>
    decreases k,
{
    if k <= 0 {
        Seq::empty()
    } else if rule_value(hs[k - 1].rule@, answers) {
        hidden_of(answers, hs, k - 1).push(strip_leading(hs[k - 1].file@, "./"@))
    } else {
        hidden_of(answers, hs, k - 1)
    }
}

/// `s` without any number of leading `./`.
fn strip_leading_dot_slash(s: &str) -> (r: String)
    ensures
        r@ == strip_leading(s@, "./"@),
{
    proof {
        reveal_strlit("./");
        assert("./"@ =~= seq!['.', '/']);
    }
    let v = chars_of(s);
    let mut i: usize = 0;
    proof {
        assert(s@.skip(0) =~= s@);
    }
    while i < v.len() && i + 1 < v.len() && v[i] == '.' && v[i + 1] == '/'
        invariant
            v@ == s@,
            "./"@ == seq!['.', '/'],
            i <= v@.len(),
            strip_leading(s@, "./"@) == strip_leading(s@.skip(i as int), "./"@),
        decreases v@.len() - i,
    {
        proof {
            assert(s@.skip(i as int).take(2) =~= seq!['.', '/']);
            assert(s@.skip(i as int).skip(2) =~= s@.skip(i + 2));
        }
        i = i + 2;
    }
    proof {
        if s@.skip(i as int).len() >= 2 {
            assert(s@.skip(i as int).take(2) =~= seq![v@[i as int], v@[i + 1]]);
        }
    }
    let r = string_of_range(&v, i, v.len());
    proof {
        assert(r@ =~= s@.skip(i as int));
    }
    r
}

/// The files removed after expansion, relative to the project directory.
pub fn hidden_files(answers: &Answers, rules: &TemplateRules) -> (r: Vec<String>)
    ensures
        views(r@) == hidden_of(answers@, rules.hide_files@, rules.hide_files@.len() as int),
{
    let mut r: Vec<String> = Vec::new();
    let mut k: usize = 0;
    proof {
        assert(views(r@) =~= Seq::<Seq<char>>::empty());
    }
    while k < rules.hide_files.len()
        invariant
            k <= rules.hide_files@.len(),
            views(r@) == hidden_of(answers@, rules.hide_files@, k as int),
        decreases rules.hide_files@.len() - k,
    {
        let h = &rules.hide_files[k];
        if eval_rule(h.rule.as_str(), answers) {
            let f = strip_leading_dot_slash(h.file.as_str());
            let ghost before = views(r@);
            r.push(f);
            proof {
                assert(views(r@) =~= before.push(strip_leading(h.file@, "./"@)));
            }
        }
        k = k + 1;
    }
    r
}

/// A file of a project template expanded with the project's parameters,
/// substituted in some order of them. Expansion fails exactly when the
/// template's implementation areas are malformed.
pub fn expand_project_file(content: &str, params: &Answers) -> (r: Option<String>)
    ensures
        (r is Some) == (template_expansion_of(content@, Seq::empty()) is Some),
        r matches Some(t) ==> exists|pv: Seq<(Seq<char>, Seq<char>)>, ps: Seq<(Seq<char>, Seq<char>)>|
            #![trigger keys_distinct(pv), template_expansion_of(content@, ps)]
            keys_distinct(pv) && entries_map(pv) == params@ && ps.to_multiset() == pv.to_multiset()
                && template_expansion_of(content@, ps) == Some(t@),
{
    let pairs = params.pairs();
    proof {
        assert(param_views(pairs@) =~= pair_views(pairs@));
    }
    let r = expand_template(content, pairs);
    proof {
        if let Some(t) = &r {
            let ps = choose|ps: Seq<(Seq<char>, Seq<char>)>|
                ps.to_multiset() == param_views(pairs@).to_multiset() && #[trigger] template_expansion_of(content@, ps)
                    == Some(t@);
            assert(keys_distinct(pair_views(pairs@)) && entries_map(pair_views(pairs@)) == params@
                && ps.to_multiset() == pair_views(pairs@).to_multiset() && template_expansion_of(content@, ps)
                == Some(t@));
        }
    }
    r
}

} // verus!
