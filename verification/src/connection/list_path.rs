//! Listing what is registered directly below an object path.

use crate::command::SignalFilter;
use crate::connection::Connection;
use crate::connection::Route;
use crate::connection::keys_of;
use crate::text::chars_of;
use crate::text::string_of;
use crate::text::texts;
use vstd::prelude::*;

verus! {

/// What every path below `parent` begins with: `parent` and a slash, or the slash alone when
/// `parent` is the root.
pub open spec fn below(parent: Seq<char>) -> Seq<char> {
    if parent == seq!['/'] {
        parent
    } else {
        parent.push('/')
    }
}

/// Whether `name` is the first segment of `rest`: what stands before its first slash.
pub open spec fn is_first_segment(rest: Seq<char>, name: Seq<char>) -> bool {
    &&& name.is_prefix_of(rest)
    &&& !name.contains('/')
    &&& (name.len() == rest.len() || rest[name.len() as int] == '/')
}

/// Whether `path` lies below `parent` by at least one segment, the first of which is `name`.
pub open spec fn is_child(path: Seq<char>, parent: Seq<char>, name: Seq<char>) -> bool {
    &&& below(parent).is_prefix_of(path)
    &&& path.len() > below(parent).len()
    &&& is_first_segment(path.skip(below(parent).len() as int), name)
}

/// The names directly below `parent` among `paths`: the first additional segment of every
/// path that lies below `parent`.
pub open spec fn children(paths: Seq<Seq<char>>, parent: Seq<char>) -> Set<Seq<char>> {
    Set::new(
        |name: Seq<char>|
            exists|i: int| 0 <= i < paths.len() && is_child(#[trigger] paths[i], parent, name),
    )
}

/// A sequence has one first segment.
pub proof fn lemma_first_segment_unique(rest: Seq<char>, a: Seq<char>, b: Seq<char>)
    requires
        is_first_segment(rest, a),
        is_first_segment(rest, b),
    ensures
        a == b,
{
    if a.len() < b.len() {
        assert(b[a.len() as int] == rest[a.len() as int]);
    } else if b.len() < a.len() {
        assert(a[b.len() as int] == rest[b.len() as int]);
    }
}

/// The name under which `path` appears directly below `parent`, if it lies below it.
pub fn child_name(path: &Vec<char>, parent: &Vec<char>) -> (name: Option<String>)
    ensures
        match name {
            Some(name) => forall|other: Seq<char>|
                is_child(path@, parent@, other) <==> other == name@,
            None => forall|other: Seq<char>| !is_child(path@, parent@, other),
        },
{
    let root = parent.len() == 1 && parent[0] == '/';
    assert(root <==> parent@ == seq!['/']) by {
        if root {
            assert(parent@ =~= seq!['/']);
        }
    }
    if parent.len() >= path.len() {
        return None;
    }
    let start: usize = if root {
        1
    } else {
        parent.len() + 1
    };
    if path.len() <= start {
        return None;
    }
    let mut i: usize = 0;
    while i < parent.len()
        invariant
            i <= parent.len() < path.len(),
            forall|j: int| 0 <= j < i ==> path@[j] == parent@[j],
        decreases parent.len() - i,
    {
        if path[i] != parent[i] {
            assert(!below(parent@).is_prefix_of(path@)) by {
                if below(parent@).is_prefix_of(path@) {
                    assert(below(parent@)[i as int] == path@[i as int]);
                }
            }
            return None;
        }
        i += 1;
    }
    if !root && path[parent.len()] != '/' {
        assert(!below(parent@).is_prefix_of(path@)) by {
            if below(parent@).is_prefix_of(path@) {
                assert(below(parent@)[parent.len() as int] == path@[parent.len() as int]);
            }
        }
        return None;
    }
    assert(below(parent@).is_prefix_of(path@)) by {
    }
    let mut end: usize = start;
    while end < path.len() && path[end] != '/'
        invariant
            start <= end <= path.len(),
            forall|j: int| start <= j < end ==> path@[j] != '/',
        decreases path.len() - end,
    {
        end += 1;
    }
    let name = string_of(path, start, end);
    proof {
        let rest = path@.skip(start as int);
        assert(is_first_segment(rest, name@)) by {
            if name@.contains('/') {
                let j = name@.index_of('/');
            }
        }
        assert forall|other: Seq<char>| is_child(path@, parent@, other) implies other
            == name@ by {
            lemma_first_segment_unique(rest, other, name@);
        }
    }
    Some(name)
}

/// Whether `names` holds a string with the text of `name`.
pub fn holds_name(names: &Vec<String>, name: &String) -> (held: bool)
    ensures
        held == texts(names@).contains(name@),
{
    let mut i: usize = 0;
    while i < names.len()
        invariant
            i <= names.len(),
            forall|j: int| 0 <= j < i ==> texts(names@)[j] != name@,
        decreases names.len() - i,
    {
        if names[i] == *name {
            assert(texts(names@)[i as int] == name@);
            return true;
        }
        i += 1;
    }
    false
}

/// The names directly below `parent` among the keys of `routes`, each once.
pub(crate) fn list_children(routes: &Vec<Route<String>>, parent: &String) -> (names: Vec<String>)
    ensures
        texts(names@).no_duplicates(),
        texts(names@).to_set() == children(keys_of(routes@), parent@),
{
    let parent_chars = chars_of(parent.as_str());
    let mut names: Vec<String> = Vec::new();
    let mut i: usize = 0;
    while i < routes.len()
        invariant
            i <= routes.len(),
            parent_chars@ == parent@,
            texts(names@).no_duplicates(),
            forall|name: Seq<char>|
                texts(names@).contains(name) <==> children(
                    keys_of(routes@).take(i as int),
                    parent@,
                ).contains(name),
        decreases routes.len() - i,
    {
        let path_chars = chars_of(routes[i].key.as_str());
        let ghost seen = keys_of(routes@).take(i as int);
        let ghost more = keys_of(routes@).take(i as int + 1);
        let ghost before = texts(names@);
        let found = child_name(&path_chars, &parent_chars);
        let mut added = false;
        if let Some(name) = found {
            if !holds_name(&names, &name) {
                names.push(name);
                added = true;
                assert(texts(names@) =~= before.push(name@));
            }
        }
        proof {
            let now = texts(names@);
            assert forall|name: Seq<char>| now.contains(name) <==> children(
                more,
                parent@,
            ).contains(name) by {
                if children(more, parent@).contains(name) {
                    let j = choose|j: int|
                        0 <= j < more.len() && is_child(#[trigger] more[j], parent@, name);
                    if j < i {
                        assert(before.contains(name));
                        assert(now[before.index_of(name)] == name);
                    } else if added {
                        assert(now[now.len() - 1] == name);
                    }
                }
                if now.contains(name) {
                    if added && now.index_of(name) == now.len() - 1 {
                        assert(is_child(more[i as int], parent@, name));
                    } else {
                        assert(before.contains(name));
                        assert(children(seen, parent@).contains(name));
                    }
                }
            }
        }
        i += 1;
    }
    assert(keys_of(routes@).take(i as int) =~= keys_of(routes@));
    names
}

impl<F: SignalFilter> Connection<F> {
    /// Lists the names directly below `path` among the object paths that have a method-call
    /// route, each once.
    pub fn list_path(&self, path: &String) -> (names: Vec<String>)
        ensures
            texts(names@).no_duplicates(),
            texts(names@).to_set() == children(self.state().paths, path@),
    {
        list_children(&self.method_calls, path)
    }
}

} // verus!
