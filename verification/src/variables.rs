//! Operations on the process-scoped variable table: listing and printing,
//! and the set / update / delete / find primitives the commands and the
//! interactive editor are built from.

use vstd::prelude::*;

use crate::models::ErrorKind;
use crate::store::Store;
use crate::text::{push_char, replace_all, replace_str};

verus! {

/// One rendered entry: the format text with `{name}` and `{value}`
/// substituted, in that order.
pub open spec fn format_entry(format: Seq<char>, key: Seq<char>, value: Seq<char>) -> Seq<char> {
    replace_all(replace_all(format, "{name}"@, key), "{value}"@, value)
}

/// All entries rendered in order, one newline-terminated line each.
pub open spec fn print_env_text(pairs: Seq<(Seq<char>, Seq<char>)>, format: Seq<char>) -> Seq<
    char,
>
    decreases pairs.len(),
{
    if pairs.len() == 0 {
        Seq::<char>::empty()
    } else {
        print_env_text(pairs.drop_last(), format) + format_entry(
            format,
            pairs.last().0,
            pairs.last().1,
        ) + seq!['\n']
    }
}

/// Renders every variable with the given format, which may mention
/// `{name}` and `{value}`, one line per variable in storage order.
pub fn print_env(format: &str, store: &Store) -> (r: String)
    ensures
        r@ == print_env_text(store.pairs(), format@),
{
    let entries = store.list();
    let mut out = String::new();
    let mut i: usize = 0;
    let n = entries.len();
    proof {
        assert(store.pairs().subrange(0, 0) =~= Seq::<(Seq<char>, Seq<char>)>::empty());
    }
    while i < n
        invariant
            i <= n,
            n == entries@.len(),
            entries.deep_view() == store.pairs(),
            out@ == print_env_text(store.pairs().subrange(0, i as int), format@),
            forall|j: int|
                0 <= j < n ==> #[trigger] entries.deep_view()[j] == (
                    entries@[j].0@,
                    entries@[j].1@,
                ),
        decreases n - i,
    {
        let with_name = replace_str(format, "{name}", entries[i].0.as_str());
        let line = replace_str(with_name.as_str(), "{value}", entries[i].1.as_str());
        out.append(line.as_str());
        push_char(&mut out, '\n');
        proof {
            let ps = store.pairs();
            assert(ps.subrange(0, i + 1).drop_last() =~= ps.subrange(0, i as int));
            assert(ps.subrange(0, i + 1).last() == ps[i as int]);
            assert(out@ =~= print_env_text(ps.subrange(0, i + 1), format@));
        }
        i = i + 1;
    }
    proof {
        assert(store.pairs().subrange(0, n as int) =~= store.pairs());
    }
    out
}

/// A snapshot of all variables with their values.
pub fn get_variables(store: &Store) -> (r: Vec<(String, String)>)
    ensures
        r.deep_view() == store.pairs(),
{
    store.list()
}

/// A key the in-memory table accepts: non-empty, with no `=` and no NUL.
pub open spec fn acceptable_key(key: Seq<char>) -> bool {
    key.len() > 0 && !key.contains('=') && !key.contains('\0')
}

/// Binds `key` to `value` in the table, after checking the key for
/// emptiness and for characters that the environment cannot represent.
pub fn set_variable(store: &mut Store, key: &str, value: &str) -> (r: Result<(), ErrorKind>)
    requires
        old(store).wf(),
    ensures
        final(store).wf(),
        r is Ok <==> acceptable_key(key@),
        acceptable_key(key@) ==> final(store).as_map() == old(store).as_map().insert(key@, value@),
        key@.len() == 0 ==> (r matches Err(ErrorKind::InvalidInput(m)) && m@
            == "Variable key cannot be empty"@),
        key@.len() > 0 && (key@.contains('=') || key@.contains('\0')) ==> (r matches Err(
            ErrorKind::InvalidInput(m),
        ) && m@ == "Invalid characters in variable name"@),
        !acceptable_key(key@) ==> *final(store) == *old(store),
{
    if key.unicode_len() == 0 {
        return Err(ErrorKind::InvalidInput(String::from_str("Variable key cannot be empty")));
    }
    if crate::text::contains_char(key, '=') || crate::text::contains_char(key, '\0') {
        return Err(
            ErrorKind::InvalidInput(String::from_str("Invalid characters in variable name")),
        );
    }
    store.set_value(key, value);
    Ok(())
}

/// Removes `name` from the table. A missing variable is a no-op and
/// still succeeds: the table is simply without that key afterwards.
pub fn delete_variable(store: &mut Store, name: &str) -> (r: Result<(), ErrorKind>)
    requires
        old(store).wf(),
    ensures
        final(store).wf(),
        r is Ok,
        final(store).as_map() == old(store).as_map().remove(name@),
        !old(store).as_map().contains_key(name@) ==> *final(store) == *old(store),
{
    store.remove_value(name);
    Ok(())
}

/// Looks `key` up, returning the pair when the table holds it.
pub fn find_variable(store: &Store, key: &str) -> (r: Option<(String, String)>)
    requires
        store.wf(),
    ensures
        match r {
            Some(p) => store.as_map().contains_key(key@) && p.0@ == key@ && p.1@
                == store.as_map().index(key@),
            None => !store.as_map().contains_key(key@),
        },
{
    match store.get_value(key) {
        Some(v) => Some((String::from_str(key), v)),
        None => None,
    }
}

/// Rebinds a variable: an optional new key, an optional new value, the
/// old value carried over where no new one is given. With a new key the
/// old binding is removed first, so a failure of the later checks can
/// leave the old key already deleted, as the sequential steps imply.
pub fn update_variable(
    store: &mut Store,
    old_key: &str,
    new_key: Option<&str>,
    new_value: Option<&str>,
) -> (r: Result<(), ErrorKind>)
    requires
        old(store).wf(),
    ensures
        final(store).wf(),
        (new_key is None && new_value is None) ==> (r is Ok && *final(store) == *old(store)),
        !(new_key is None && new_value is None) && new_value is None && !old(
            store,
        ).as_map().contains_key(old_key@) ==> (*final(store) == *old(store) && (r matches Err(
            ErrorKind::InvalidInput(m),
        ) && m@ == "Cannot update variable without a value"@)),
        new_key is None ==> (new_value matches Some(nv) ==> {
            &&& acceptable_key(old_key@) ==> (r is Ok && final(store).as_map() == old(
                store,
            ).as_map().insert(old_key@, nv@))
            &&& !acceptable_key(old_key@) ==> (r is Err && *final(store) == *old(store))
        }),
        new_key matches Some(nk) ==> (new_value matches Some(nv) ==> (if nk@ == old_key@ {
            &&& acceptable_key(nk@) ==> (r is Ok && final(store).as_map() == old(
                store,
            ).as_map().insert(nk@, nv@))
            &&& !acceptable_key(nk@) ==> (r is Err && *final(store) == *old(store))
        } else {
            &&& acceptable_key(nk@) ==> (r is Ok && final(store).as_map() == old(
                store,
            ).as_map().remove(old_key@).insert(nk@, nv@))
            &&& !acceptable_key(nk@) ==> (r is Err && final(store).as_map() == old(
                store,
            ).as_map().remove(old_key@))
        })),
        new_key matches Some(nk) ==> (new_value is None ==> (old(store).as_map().contains_key(
            old_key@,
        ) ==> (if nk@ == old_key@ {
            &&& acceptable_key(nk@) ==> (r is Ok && final(store).as_map() == old(
                store,
            ).as_map().insert(nk@, old(store).as_map()[old_key@]))
            &&& !acceptable_key(nk@) ==> (r is Err && *final(store) == *old(store))
        } else {
            &&& acceptable_key(nk@) ==> (r is Ok && final(store).as_map() == old(
                store,
            ).as_map().remove(old_key@).insert(nk@, old(store).as_map()[old_key@]))
            &&& !acceptable_key(nk@) ==> (r is Err && final(store).as_map() == old(
                store,
            ).as_map().remove(old_key@))
        }))),
{
    if new_key.is_none() && new_value.is_none() {
        return Ok(());
    }
    let current_value = store.get_value(old_key);
    let value_owned: Option<String> = match new_value {
        Some(v) => Some(String::from_str(v)),
        None => current_value,
    };
    match value_owned {
        Some(value) => {
            let changed_key = match new_key {
                Some(nk) => !crate::text::str_eq(nk, old_key),
                None => false,
            };
            if changed_key {
                let _ = delete_variable(store, old_key);
            }
            let key_to_use = match new_key {
                Some(nk) => nk,
                None => old_key,
            };
            set_variable(store, key_to_use, value.as_str())
        },
        None => Err(
            ErrorKind::InvalidInput(String::from_str("Cannot update variable without a value")),
        ),
    }
}

} // verus!
