//! Records kept one per named file in a directory: names are unique, writing
//! a name replaces its record in place or adds it at the end, and reading a
//! name gives its record.

use vstd::prelude::*;

verus! {

/// A record and the name of the file that holds it.
#[derive(Debug, Clone)]
pub struct StoredFile<R> {
    pub name: String,
    pub record: R,
}

/// The files of a directory, each as its name and its record, in listing order.
pub open spec fn entries_of<R>(files: Seq<StoredFile<R>>) -> Seq<(Seq<char>, R)> {
    Seq::new(files.len(), |i: int| (files[i].name@, files[i].record))
}

/// No two files share a name.
pub open spec fn names_unique<R>(es: Seq<(Seq<char>, R)>) -> bool {
    forall|i: int, j: int| 0 <= i < j < es.len() ==> es[i].0 != es[j].0
}

/// Some file has the name.
pub open spec fn has_name<R>(es: Seq<(Seq<char>, R)>, name: Seq<char>) -> bool {
    exists|i: int| 0 <= i < es.len() && es[i].0 == name
}

/// The position of the file with the name, where there is one.
pub open spec fn position_of<R>(es: Seq<(Seq<char>, R)>, name: Seq<char>) -> int {
    choose|i: int| 0 <= i < es.len() && es[i].0 == name
}

/// The record held under the name.
pub open spec fn lookup<R>(es: Seq<(Seq<char>, R)>, name: Seq<char>) -> Option<R> {
    if has_name(es, name) {
        Some(es[position_of(es, name)].1)
    } else {
        None
    }
}

/// Writing a record under a name: an existing file keeps its place and gets
/// the new record; otherwise the file is added at the end.
pub open spec fn upsert<R>(es: Seq<(Seq<char>, R)>, name: Seq<char>, record: R) -> Seq<(Seq<char>, R)> {
    if has_name(es, name) {
        es.update(position_of(es, name), (name, record))
    } else {
        es.push((name, record))
    }
}

/// Removing the file with the name, where there is one.
pub open spec fn remove_name<R>(es: Seq<(Seq<char>, R)>, name: Seq<char>) -> Seq<(Seq<char>, R)> {
    if has_name(es, name) {
        es.remove(position_of(es, name))
    } else {
        es
    }
}

/// With unique names, the file found at `i` is the one that `position_of` names.
pub proof fn lemma_position_unique<R>(es: Seq<(Seq<char>, R)>, name: Seq<char>, i: int)
    requires
        names_unique(es),
        0 <= i < es.len(),
        es[i].0 == name,
    ensures
        has_name(es, name),
        position_of(es, name) == i,
        lookup(es, name) == Some(es[i].1),
{
    assert(has_name(es, name));
    let j = position_of(es, name);
    if j != i {
        if j < i {
            assert(es[j].0 != es[i].0);
        } else {
            assert(es[i].0 != es[j].0);
        }
    }
}

pub proof fn lemma_upsert_unique<R>(es: Seq<(Seq<char>, R)>, name: Seq<char>, record: R)
    requires
        names_unique(es),
    ensures
        names_unique(upsert(es, name, record)),
        lookup(upsert(es, name, record), name) == Some(record),
{
    let out = upsert(es, name, record);
    if has_name(es, name) {
        let p = position_of(es, name);
        assert forall|i: int, j: int| 0 <= i < j < out.len() implies out[i].0 != out[j].0 by {
            assert(out[i].0 == es[i].0);
            assert(out[j].0 == es[j].0);
        }
        lemma_position_unique(out, name, p);
    } else {
        assert forall|i: int, j: int| 0 <= i < j < out.len() implies out[i].0 != out[j].0 by {
            if j == es.len() {
                assert(es[i].0 != name);
            }
        }
        lemma_position_unique(out, name, es.len() as int);
    }
}

pub proof fn lemma_remove_unique<R>(es: Seq<(Seq<char>, R)>, name: Seq<char>)
    requires
        names_unique(es),
    ensures
        names_unique(remove_name(es, name)),
        !has_name(remove_name(es, name), name),
{
    let out = remove_name(es, name);
    if has_name(es, name) {
        let p = position_of(es, name);
        assert forall|i: int, j: int| 0 <= i < j < out.len() implies out[i].0 != out[j].0 by {
            let a = if i < p { i } else { i + 1 };
            let b = if j < p { j } else { j + 1 };
            assert(out[i] == es[a]);
            assert(out[j] == es[b]);
        }
        if has_name(out, name) {
            let k = choose|k: int| 0 <= k < out.len() && out[k].0 == name;
            let a = if k < p { k } else { k + 1 };
            assert(out[k] == es[a]);
            if a < p {
                assert(es[a].0 != es[p].0);
            } else {
                assert(es[p].0 != es[a].0);
            }
        }
    }
}

/// Finds the position of the file with the name.
pub fn find_name<R>(files: &Vec<StoredFile<R>>, name: &str) -> (r: Option<usize>)
    requires
        names_unique(entries_of(files@)),
    ensures
        match r {
            Some(i) => i < files@.len() && has_name(entries_of(files@), name@) && position_of(
                entries_of(files@),
                name@,
            ) == i,
            None => !has_name(entries_of(files@), name@),
        },
{
    let ghost es = entries_of(files@);
    let mut i: usize = 0;
    while i < files.len()
        invariant
            es == entries_of(files@),
            names_unique(es),
            i <= files@.len(),
            forall|k: int| 0 <= k < i ==> es[k].0 != name@,
        decreases files@.len() - i,
    {
        if crate::text::text_eq(files[i].name.as_str(), name) {
            proof {
                lemma_position_unique(es, name@, i as int);
            }
            return Some(i);
        }
        i = i + 1;
    }
    None
}

/// Writes a record under a name.
pub fn put_file<R>(files: &mut Vec<StoredFile<R>>, name: String, record: R)
    requires
        names_unique(entries_of(old(files)@)),
    ensures
        entries_of(final(files)@) == upsert(entries_of(old(files)@), name@, record),
        names_unique(entries_of(final(files)@)),
{
    let ghost es = entries_of(files@);
    let ghost name_view = name@;
    proof {
        lemma_upsert_unique(es, name_view, record);
    }
    match find_name(files, name.as_str()) {
        Some(i) => {
            files.set(i, StoredFile { name, record });
            assert(entries_of(files@) =~= es.update(i as int, (name_view, record)));
        },
        None => {
            files.push(StoredFile { name, record });
            assert(entries_of(files@) =~= es.push((name_view, record)));
        },
    }
}

/// Removes the file with the name and gives its record.
pub fn take_file<R>(files: &mut Vec<StoredFile<R>>, name: &str) -> (record: Option<R>)
    requires
        names_unique(entries_of(old(files)@)),
    ensures
        record == lookup(entries_of(old(files)@), name@),
        entries_of(final(files)@) == remove_name(entries_of(old(files)@), name@),
        names_unique(entries_of(final(files)@)),
{
    let ghost es = entries_of(files@);
    proof {
        lemma_remove_unique(es, name@);
    }
    match find_name(files, name) {
        Some(i) => {
            let file = files.remove(i);
            proof {
                lemma_position_unique(es, name@, i as int);
            }
            assert(entries_of(files@) =~= es.remove(i as int));
            Some(file.record)
        },
        None => None,
    }
}

} // verus!
