//! Command nodes: the path of words a command is reached by, written with
//! dots (`remote.add`) and typed with spaces (`remote add`).
use vstd::prelude::*;
use crate::casing::{is_kebab, kebab_case, kebab_case_of};
use crate::flag::clone_strings;
use crate::text::{compare_text, join, joined, lemma_text_order, replace_char, replace_char_spec, sep_parts, split_on, text_lt, views};
use std::cmp::Ordering;

verus! {

/// The path of a command, one kebab-case word per level.
#[derive(Debug, Eq, Ord)]
pub struct Node {
    node: Vec<String>,
}

impl View for Node {
    type V = Seq<Seq<char>>;

    closed spec fn view(&self) -> Seq<Seq<char>> {
        views(self.node@)
    }
}

/// The levels of a dotted node name, each in kebab-case.
pub open spec fn node_levels(s: Seq<char>) -> Seq<Seq<char>> {
    sep_parts(s, '.').map_values(|p: Seq<char>| kebab_case_of(p))
}

/// Whether the path `a` sorts before the path `b`: level by level, by the
/// text order of the levels, a proper prefix first.
pub open spec fn path_lt(a: Seq<Seq<char>>, b: Seq<Seq<char>>) -> bool
    decreases a.len(),
{
    if b.len() == 0 {
        false
    } else if a.len() == 0 {
        true
    } else if text_lt(a[0], b[0]) {
        true
    } else if a[0] == b[0] {
        path_lt(a.skip(1), b.skip(1))
    } else {
        false
    }
}

/// The sign of the comparison of two paths.
pub open spec fn path_sign(a: Seq<Seq<char>>, b: Seq<Seq<char>>) -> i8 {
    if a == b {
        0i8
    } else if path_lt(a, b) {
        -1i8
    } else {
        1i8
    }
}

/// The order of two paths.
pub open spec fn path_order(a: Seq<Seq<char>>, b: Seq<Seq<char>>) -> Ordering {
    if a == b {
        Ordering::Equal
    } else if path_lt(a, b) {
        Ordering::Less
    } else {
        Ordering::Greater
    }
}

/// Nodes are ordered strictly and totally: no path sorts before itself,
/// two paths never sort before each other, the order is transitive, and
/// of two different paths one sorts first.
pub proof fn law_path_order(a: Seq<Seq<char>>, b: Seq<Seq<char>>, c: Seq<Seq<char>>)
    ensures
        !path_lt(a, a),
        path_lt(a, b) ==> !path_lt(b, a),
        path_lt(a, b) && path_lt(b, c) ==> path_lt(a, c),
        a != b ==> path_lt(a, b) || path_lt(b, a),
    decreases a.len(),
{
    if a.len() > 0 {
        lemma_text_order(a[0], b[0], c[0]);
        if b.len() > 0 {
            lemma_text_order(b[0], a[0], c[0]);
        }
        if c.len() > 0 {
            lemma_text_order(a[0], c[0], b[0]);
        }
        law_path_order(a.skip(1), b.skip(1), c.skip(1));
        if b.len() > 0 && a[0] == b[0] && a.skip(1) == b.skip(1) {
            assert(a =~= seq![a[0]] + a.skip(1));
            assert(b =~= seq![b[0]] + b.skip(1));
        }
    } else if b.len() == 0 {
        assert(a =~= b);
    }
}

impl Node {
    /// The levels of the node.
    pub fn parts(&self) -> (r: &Vec<String>)
        ensures
            views(r@) == self@,
    {
        &self.node
    }

    /// The node one level below this one.
    pub fn join<S>(self, part: S) -> (r: Node)
        where String: From<S>,
        ensures
            exists|p: String| call_ensures(<String as From<S>>::from, (part,), p) && r@ == self@.push(p@),
    {
        let p = String::from(part);
        let ghost pv = p@;
        let mut node = self.node;
        let ghost prev = views(node@);
        node.push(p);
        proof {
            assert(views(node@) =~= prev.push(pv));
        }
        Node { node }
    }

    /// The node named by the dotted text `s`, each level turned into
    /// kebab-case; a level already in kebab-case is kept as it is.
    pub fn from_dotted(s: &str) -> (r: Node)
        ensures
            r@ == node_levels(s@),
            forall|k: int|
                0 <= k < sep_parts(s@, '.').len() && is_kebab(#[trigger] sep_parts(s@, '.')[k]) ==> r@[k]
                    == sep_parts(s@, '.')[k],
    {
        let parts = split_on(s, '.');
        let ghost ps = views(parts@);
        let mut node: Vec<String> = Vec::new();
        let mut i: usize = 0;
        while i < parts.len()
            invariant
                ps == views(parts@),
                ps == sep_parts(s@, '.'),
                i <= ps.len(),
                views(node@) == ps.take(i as int).map_values(|p: Seq<char>| kebab_case_of(p)),
                forall|k: int| 0 <= k < i && is_kebab(#[trigger] ps[k]) ==> kebab_case_of(ps[k]) == ps[k],
            decreases ps.len() - i,
        {
            let ghost prev = views(node@);
            node.push(kebab_case(parts[i].as_str()));
            proof {
                assert(parts@[i as int]@ == ps[i as int]);
                assert(views(node@) =~= prev.push(kebab_case_of(ps[i as int])));
                assert(ps.take(i + 1).map_values(|p: Seq<char>| kebab_case_of(p)) =~= ps.take(
                    i as int,
                ).map_values(|p: Seq<char>| kebab_case_of(p)).push(kebab_case_of(ps[i as int])));
            }
            i = i + 1;
        }
        proof {
            assert(ps.take(ps.len() as int) =~= ps);
        }
        Node { node }
    }

    /// The node written with dots between its levels.
    pub fn to_string(&self) -> (r: String)
        ensures
            r@ == joined(self@, "."@),
    {
        join(&self.node, ".")
    }

    /// The node as it is typed: its levels separated by spaces.
    pub fn command(&self) -> (r: String)
        ensures
            r@ == replace_char_spec(joined(self@, "."@), '.', ' '),
    {
        let dotted = self.to_string();
        replace_char(dotted.as_str(), '.', ' ')
    }

    /// Compares two nodes level by level: -1 when this one sorts first, 0
    /// when they are equal, 1 otherwise.
    pub fn compare_paths(&self, other: &Node) -> (r: i8)
        ensures
            r == path_sign(self@, other@),
    {
        let ghost a = self@;
        let ghost b = other@;
        let n = self.node.len();
        let m = other.node.len();
        let mut i: usize = 0;
        proof {
            assert(a.skip(0) =~= a);
            assert(b.skip(0) =~= b);
        }
        while i < n && i < m
            invariant
                a == self@,
                b == other@,
                n == a.len(),
                m == b.len(),
                i <= n,
                i <= m,
                a.take(i as int) == b.take(i as int),
                path_lt(a, b) == path_lt(a.skip(i as int), b.skip(i as int)),
            decreases n - i,
        {
            let c = compare_text(self.node[i].as_str(), other.node[i].as_str());
            proof {
                assert(a.skip(i as int)[0] == a[i as int]);
                assert(b.skip(i as int)[0] == b[i as int]);
                lemma_text_order(a[i as int], b[i as int], a[i as int]);
                lemma_text_order(b[i as int], a[i as int], b[i as int]);
            }
            if c < 0 {
                proof {
                    assert(a != b) by {
                        if a == b {
                            assert(a[i as int] == b[i as int]);
                        }
                    }
                }
                return -1;
            }
            if c > 0 {
                proof {
                    assert(a != b) by {
                        if a == b {
                            assert(a[i as int] == b[i as int]);
                        }
                    }
                    assert(!text_lt(a[i as int], b[i as int]));
                }
                return 1;
            }
            proof {
                assert(a.skip(i as int).skip(1) =~= a.skip(i + 1));
                assert(b.skip(i as int).skip(1) =~= b.skip(i + 1));
                assert(a.take(i + 1) =~= a.take(i as int).push(a[i as int]));
                assert(b.take(i + 1) =~= b.take(i as int).push(b[i as int]));
            }
            i = i + 1;
        }
        if n == m {
            proof {
                assert(a =~= a.take(i as int));
                assert(b =~= b.take(i as int));
            }
            0
        } else if i == n {
            proof {
                assert(a.skip(i as int).len() == 0);
                assert(a.len() != b.len());
            }
            -1
        } else {
            proof {
                assert(b.skip(i as int).len() == 0);
                assert(a.len() != b.len());
            }
            1
        }
    }

    /// Compares two nodes level by level.
    pub fn compare(&self, other: &Node) -> (r: Ordering)
        ensures
            r == path_order(self@, other@),
    {
        let c = self.compare_paths(other);
        if c < 0 {
            Ordering::Less
        } else if c == 0 {
            Ordering::Equal
        } else {
            Ordering::Greater
        }
    }
}

impl Default for Node {
    fn default() -> (r: Node)
        ensures
            r@ == Seq::<Seq<char>>::empty(),
    {
        let r = Node { node: Vec::new() };
        proof {
            assert(r@ =~= Seq::<Seq<char>>::empty());
        }
        r
    }
}

impl Clone for Node {
    fn clone(&self) -> (r: Node)
        ensures
            r@ == self@,
    {
        Node { node: clone_strings(&self.node) }
    }
}

impl<'a> From<&'a str> for Node {
    fn from(s: &'a str) -> (r: Node)
        ensures
            r@ == node_levels(s@),
    {
        Node::from_dotted(s)
    }
}

impl<'a> vstd::std_specs::convert::FromSpecImpl<&'a str> for Node {
    open spec fn obeys_from_spec() -> bool {
        false
    }

    open spec fn from_spec(v: &'a str) -> Node {
        vstd::pervasive::arbitrary()
    }
}

impl From<String> for Node {
    fn from(s: String) -> (r: Node)
        ensures
            r@ == node_levels(s@),
    {
        Node::from_dotted(s.as_str())
    }
}

impl vstd::std_specs::convert::FromSpecImpl<String> for Node {
    open spec fn obeys_from_spec() -> bool {
        false
    }

    open spec fn from_spec(v: String) -> Node {
        vstd::pervasive::arbitrary()
    }
}

impl PartialEq for Node {
    fn eq(&self, other: &Node) -> (r: bool) {
        let ord = self.compare(other);
        match ord {
            Ordering::Equal => true,
            _ => false,
        }
    }
}

impl vstd::std_specs::cmp::PartialEqSpecImpl for Node {
    open spec fn obeys_eq_spec() -> bool {
        true
    }

    open spec fn eq_spec(&self, other: &Node) -> bool {
        self@ == other@
    }
}

impl PartialOrd for Node {
    fn partial_cmp(&self, other: &Node) -> (r: Option<Ordering>) {
        Some(self.compare(other))
    }
}

impl vstd::std_specs::cmp::PartialOrdSpecImpl for Node {
    open spec fn obeys_partial_cmp_spec() -> bool {
        true
    }

    open spec fn partial_cmp_spec(&self, other: &Node) -> Option<Ordering> {
        Some(path_order(self@, other@))
    }
}

} // verus!
