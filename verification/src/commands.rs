//! The tool's commands over a variable store: reading, writing, appending
//! and deleting variables, exporting them to dotenv text, loading them
//! from dotenv text, and the dispatcher that maps a parsed command line to
//! these operations. Everything here is a pure function of the store, the
//! rc-file text and the input text; the caller performs the surrounding
//! reads, writes and process launches.

use vstd::prelude::*;

use crate::env_ops::{
    persist_set_content, removed_content, set_permanent_env, valid_env_var,
};
use crate::models::{
    Cli, Commands, DeleteArgs, ErrorKind, GetArgs, SetArgs,
};
use crate::similarity::{filter_similar, find_similar_vars, SIMILARITY_THRESHOLD};
use crate::store::Store;
use crate::text::{contains_seq, contains_str, push_char, quote_value, quoted};
use crate::utils::{valid_var_name, validate_var_name};
use crate::variables::{acceptable_key, print_env_text, set_variable};

verus! {

/// What `dotenv_parser::parse_dotenv` makes of a dotenv text: its
/// key/value pairs, or the parser's error message.
pub uninterp spec fn parse_dotenv_spec(s: Seq<char>) -> Result<
    Seq<(Seq<char>, Seq<char>)>,
    Seq<char>,
>;

/// Relies on `dotenv_parser::parse_dotenv`: it parses dotenv text into a
/// `BTreeMap` from names to values, so the pairs carry distinct keys, and
/// it fails exactly on text the dotenv grammar refuses. The result depends
/// on the text alone.
#[verifier::external_body]
fn parse_dotenv_pairs(content: &str) -> (r: Result<Vec<(String, String)>, String>)
    ensures
        match parse_dotenv_spec(content@) {
            Ok(ps) => r matches Ok(v) && v.deep_view() == ps
                && crate::store::unique_keys(ps),
            Err(e) => r matches Err(m) && m@ == e,
        },
{
    match dotenv_parser::parse_dotenv(content) {
        Ok(map) => Ok(map.into_iter().collect()),
        Err(e) => Err(e.to_string()),
    }
}

/// Looks a variable up. On a miss the error carries the key and whether
/// suggestions were disabled, for the caller to act on.
pub fn get(store: &Store, args: &GetArgs) -> (r: Result<String, ErrorKind>)
    requires
        store.wf(),
    ensures
        store.as_map().contains_key(args.key@) ==> (r matches Ok(v) && v@ == store.as_map().index(
            args.key@,
        )),
        !store.as_map().contains_key(args.key@) ==> (r matches Err(
            ErrorKind::CannotFindVariable(k, s),
        ) && k@ == args.key@ && s == args.no_similar_names),
{
    match store.get_value(args.key.as_str()) {
        Some(v) => Ok(v),
        None => Err(
            ErrorKind::CannotFindVariable(args.key.clone(), args.no_similar_names),
        ),
    }
}

/// Binds a variable after validating its name: an empty name or one with
/// a space is refused by the validator, and a name the environment table
/// cannot hold (`=` or NUL in it) is refused by the table itself.
pub fn set(store: &mut Store, args: &SetArgs) -> (r: Result<(), ErrorKind>)
    requires
        old(store).wf(),
    ensures
        final(store).wf(),
        r is Ok <==> valid_var_name(args.key@) && acceptable_key(args.key@),
        valid_var_name(args.key@) && acceptable_key(args.key@) ==> final(store).as_map() == old(
            store,
        ).as_map().insert(args.key@, args.value@),
        !valid_var_name(args.key@) ==> (*final(store) == *old(store) && (r matches Err(
            ErrorKind::NameValidationError(m),
        ) && (args.key@.len() == 0 ==> m@ == "Variable name cannot be empty"@) && (args.key@.len()
            > 0 ==> m@ == "Variable name cannot contain spaces"@))),
        valid_var_name(args.key@) && !acceptable_key(args.key@) ==> (*final(store) == *old(store)
            && r matches Err(ErrorKind::InvalidInput(m))),
{
    match validate_var_name(args.key.as_str()) {
        Err(m) => Err(ErrorKind::NameValidationError(m)),
        Ok(()) => set_variable(store, args.key.as_str(), args.value.as_str()),
    }
}

/// Appends to a variable's value, treating a missing variable as empty,
/// after the same validation as `set`.
pub fn add(store: &mut Store, key: &str, suffix: &str) -> (r: Result<(), ErrorKind>)
    requires
        old(store).wf(),
    ensures
        final(store).wf(),
        r is Ok <==> valid_var_name(key@) && acceptable_key(key@),
        valid_var_name(key@) && acceptable_key(key@) ==> final(store).as_map() == old(
            store,
        ).as_map().insert(
            key@,
            (if old(store).as_map().contains_key(key@) {
                old(store).as_map().index(key@)
            } else {
                Seq::<char>::empty()
            }) + suffix@,
        ),
        !valid_var_name(key@) ==> (*final(store) == *old(store) && (r matches Err(
            ErrorKind::NameValidationError(m),
        ) && (key@.len() == 0 ==> m@ == "Variable name cannot be empty"@) && (key@.len() > 0 ==> m@
            == "Variable name cannot contain spaces"@))),
        valid_var_name(key@) && !acceptable_key(key@) ==> (*final(store) == *old(store)
            && r matches Err(ErrorKind::InvalidInput(m))),
{
    match validate_var_name(key) {
        Err(m) => Err(ErrorKind::NameValidationError(m)),
        Ok(()) => {
            let mut new_value = match store.get_value(key) {
                Some(v) => v,
                None => String::new(),
            };
            new_value.append(suffix);
            set_variable(store, key, new_value.as_str())
        },
    }
}

/// Deletes a variable. A missing variable is not an error: the command
/// still succeeds and reports `false`, which the caller may surface as a
/// warning; the environment stays without that key either way.
pub fn delete(store: &mut Store, args: &DeleteArgs) -> (r: Result<bool, ErrorKind>)
    requires
        old(store).wf(),
    ensures
        final(store).wf(),
        r is Ok <==> valid_var_name(args.key@),
        valid_var_name(args.key@) && old(store).as_map().contains_key(args.key@) ==> (r matches Ok(
            removed,
        ) && removed == true && final(store).as_map() == old(store).as_map().remove(args.key@)),
        valid_var_name(args.key@) && !old(store).as_map().contains_key(args.key@) ==> (
        r matches Ok(removed) && removed == false && *final(store) == *old(store)),
        !valid_var_name(args.key@) ==> (*final(store) == *old(store) && (r matches Err(
            ErrorKind::NameValidationError(m),
        ) && (args.key@.len() == 0 ==> m@ == "Variable name cannot be empty"@) && (args.key@.len()
            > 0 ==> m@ == "Variable name cannot contain spaces"@))),
{
    match validate_var_name(args.key.as_str()) {
        Err(m) => Err(ErrorKind::NameValidationError(m)),
        Ok(()) => {
            match store.get_value(args.key.as_str()) {
                Some(_) => {
                    store.remove_value(args.key.as_str());
                    Ok(true)
                },
                None => {
                    proof {
                        assert(old(store).as_map().remove(args.key@) =~= old(store).as_map());
                    }
                    Ok(false)
                },
            }
        },
    }
}

/// Whether a vector of strings holds `s`.
fn vec_contains_str(v: &Vec<String>, s: &str) -> (b: bool)
    ensures
        b == exists|j: int| 0 <= j < v.deep_view().len() && v.deep_view()[j] == s@,
{
    let mut j: usize = 0;
    let n = v.len();
    while j < n
        invariant
            j <= n,
            n == v@.len(),
            v.deep_view().len() == n,
            forall|x: int| 0 <= x < j ==> v.deep_view()[x] != s@,
            forall|x: int| 0 <= x < n ==> #[trigger] v.deep_view()[x] == v@[x]@,
        decreases n - j,
    {
        if crate::text::str_eq(v[j].as_str(), s) {
            assert(v.deep_view()[j as int] == s@);
            return true;
        }
        j = j + 1;
    }
    false
}

/// The exported dotenv text for the requested keys: one `KEY=VALUE` line
/// per key the store holds, in request order, skipping keys not held and
/// keys already written.
pub open spec fn export_text(
    m: Map<Seq<char>, Seq<char>>,
    keys: Seq<Seq<char>>,
    seen: Set<Seq<char>>,
) -> Seq<char>
    decreases keys.len(),
{
    if keys.len() == 0 {
        Seq::<char>::empty()
    } else {
        let k = keys[0];
        if !m.contains_key(k) || seen.contains(k) {
            export_text(m, keys.drop_first(), seen)
        } else {
            k + "="@ + m.index(k) + seq!['\n'] + export_text(m, keys.drop_first(), seen.insert(k))
        }
    }
}

/// Builds the dotenv text for the requested keys. Keys the store does not
/// hold and keys already written are skipped; an invalid key aborts the
/// whole export, so nothing is produced for it.
pub fn export(store: &Store, keys: &Vec<String>) -> (r: Result<String, ErrorKind>)
    requires
        store.wf(),
    ensures
        (forall|i: int|
            0 <= i < keys.deep_view().len() ==> valid_var_name(#[trigger] keys.deep_view()[i]))
            ==> (r matches Ok(s) && s@ == export_text(
            store.as_map(),
            keys.deep_view(),
            Set::<Seq<char>>::empty(),
        )),
        !(forall|i: int|
            0 <= i < keys.deep_view().len() ==> valid_var_name(#[trigger] keys.deep_view()[i]))
            ==> (r matches Err(ErrorKind::NameValidationError(msg)) && exists|i: int|
            #![auto]
            0 <= i < keys.deep_view().len() && !valid_var_name(keys.deep_view()[i]) && (forall|
                j: int,
            | 0 <= j < i ==> valid_var_name(keys.deep_view()[j])) && (keys.deep_view()[i].len()
                == 0 ==> msg@ == "Variable name cannot be empty"@) && (keys.deep_view()[i].len()
                > 0 ==> msg@ == "Variable name cannot contain spaces"@)),
{
    let dk = Ghost(keys.deep_view());
    let m = Ghost(store.as_map());
    let mut out = String::new();
    let mut seen: Vec<String> = Vec::new();
    let ghost mut seen_set: Set<Seq<char>> = Set::<Seq<char>>::empty();
    let mut i: usize = 0;
    let n = keys.len();
    proof {
        assert(dk@.skip(0) =~= dk@);
    }
    while i < n
        invariant
            i <= n,
            n == keys@.len(),
            dk@ == keys.deep_view(),
            m@ == store.as_map(),
            store.wf(),
            dk@.len() == n,
            forall|x: int| 0 <= x < n ==> #[trigger] dk@[x] == keys@[x]@,
            forall|j: int| 0 <= j < i ==> valid_var_name(#[trigger] dk@[j]),
            export_text(m@, dk@, Set::<Seq<char>>::empty()) == out@ + export_text(
                m@,
                dk@.skip(i as int),
                seen_set,
            ),
            forall|x: Seq<char>|
                #![auto]
                seen_set.contains(x) <==> exists|j: int|
                    0 <= j < seen.deep_view().len() && seen.deep_view()[j] == x,
        decreases n - i,
    {
        match validate_var_name(keys[i].as_str()) {
            Err(msg) => {
                return Err(ErrorKind::NameValidationError(msg));
            },
            Ok(()) => {},
        }
        proof {
            assert(dk@.skip(i as int)[0] == dk@[i as int]);
            assert(dk@.skip(i as int).drop_first() =~= dk@.skip(i + 1));
        }
        match store.get_value(keys[i].as_str()) {
            Some(value) => {
                if !vec_contains_str(&seen, keys[i].as_str()) {
                    out.append(keys[i].as_str());
                    out.append("=");
                    out.append(value.as_str());
                    push_char(&mut out, '\n');
                    let ghost sdv = seen.deep_view();
                    seen.push(keys[i].clone());
                    proof {
                        seen_set = seen_set.insert(dk@[i as int]);
                        assert(seen.deep_view() =~= sdv.push(dk@[i as int]));
                        assert forall|x: Seq<char>| #![auto] seen_set.contains(x) implies exists|
                            j: int,
                        | 0 <= j < seen.deep_view().len() && seen.deep_view()[j] == x by {
                            if x == dk@[i as int] {
                                assert(seen.deep_view()[sdv.len() as int] == x);
                            } else {
                                let j = choose|j: int| 0 <= j < sdv.len() && sdv[j] == x;
                                assert(seen.deep_view()[j] == x);
                            }
                        }
                    }
                }
            },
            None => {},
        }
        i = i + 1;
    }
    proof {
        assert(dk@.skip(n as int) =~= Seq::<Seq<char>>::empty());
    }
    Ok(out)
}

/// The map after binding every pair in order, later pairs winning.
pub open spec fn apply_pairs(
    m: Map<Seq<char>, Seq<char>>,
    ps: Seq<(Seq<char>, Seq<char>)>,
) -> Map<Seq<char>, Seq<char>>
    decreases ps.len(),
{
    if ps.len() == 0 {
        m
    } else {
        apply_pairs(m, ps.drop_last()).insert(ps.last().0, ps.last().1)
    }
}

/// Every pair's key is one the table can hold.
pub open spec fn pairs_all_acceptable(ps: Seq<(Seq<char>, Seq<char>)>) -> bool {
    forall|i: int| 0 <= i < ps.len() ==> acceptable_key(#[trigger] ps[i].0)
}

/// The message the table gives for a key it cannot hold.
pub open spec fn store_key_error_text(k: Seq<char>) -> Seq<char> {
    if k.len() == 0 {
        "Variable key cannot be empty"@
    } else {
        "Invalid characters in variable name"@
    }
}

/// Binds every pair of a parsed dotenv mapping in order. A key the table
/// cannot hold aborts the load before anything is bound.
pub fn load_pairs(store: &mut Store, pairs: &Vec<(String, String)>) -> (r: Result<(), ErrorKind>)
    requires
        old(store).wf(),
    ensures
        final(store).wf(),
        r is Ok <==> pairs_all_acceptable(pairs.deep_view()),
        pairs_all_acceptable(pairs.deep_view()) ==> final(store).as_map() == apply_pairs(
            old(store).as_map(),
            pairs.deep_view(),
        ),
        !pairs_all_acceptable(pairs.deep_view()) ==> (*final(store) == *old(store) && (r matches Err(
            ErrorKind::InvalidInput(m),
        ) && exists|i: int|
            #![auto]
            0 <= i < pairs.deep_view().len() && !acceptable_key(pairs.deep_view()[i].0) && m@
                == store_key_error_text(pairs.deep_view()[i].0))),
{
    let ghost dv = pairs.deep_view();
    let n = pairs.len();
    let mut i: usize = 0;
    while i < n
        invariant
            i <= n,
            n == pairs@.len(),
            dv == pairs.deep_view(),
            dv.len() == n,
            forall|x: int| 0 <= x < n ==> #[trigger] dv[x] == (pairs@[x].0@, pairs@[x].1@),
            forall|j: int| 0 <= j < i ==> acceptable_key(#[trigger] dv[j].0),
            *store == *old(store),
            store.wf(),
        decreases n - i,
    {
        if pairs[i].0.as_str().unicode_len() == 0 {
            proof {
                assert(!acceptable_key(dv[i as int].0));
            }
            return Err(
                ErrorKind::InvalidInput(String::from_str("Variable key cannot be empty")),
            );
        }
        if crate::text::contains_char(pairs[i].0.as_str(), '=') || crate::text::contains_char(
            pairs[i].0.as_str(),
            '\0',
        ) {
            proof {
                assert(!acceptable_key(dv[i as int].0));
            }
            return Err(
                ErrorKind::InvalidInput(String::from_str("Invalid characters in variable name")),
            );
        }
        i = i + 1;
    }
    let mut k: usize = 0;
    proof {
        assert(dv.subrange(0, 0) =~= Seq::<(Seq<char>, Seq<char>)>::empty());
    }
    while k < n
        invariant
            k <= n,
            n == pairs@.len(),
            dv == pairs.deep_view(),
            dv.len() == n,
            store.wf(),
            forall|x: int| 0 <= x < n ==> #[trigger] dv[x] == (pairs@[x].0@, pairs@[x].1@),
            store.as_map() == apply_pairs(old(store).as_map(), dv.subrange(0, k as int)),
        decreases n - k,
    {
        store.set_value(pairs[k].0.as_str(), pairs[k].1.as_str());
        proof {
            assert(dv.subrange(0, k + 1).drop_last() =~= dv.subrange(0, k as int));
            assert(dv.subrange(0, k + 1).last() == dv[k as int]);
        }
        k = k + 1;
    }
    proof {
        assert(dv.subrange(0, n as int) =~= dv);
    }
    Ok(())
}

/// Loads every pair of a dotenv text into the table; the text is handed
/// to the dotenv parser whole, and a parse failure applies nothing.
pub fn load(store: &mut Store, content: &str) -> (r: Result<(), ErrorKind>)
    requires
        old(store).wf(),
    ensures
        final(store).wf(),
        match parse_dotenv_spec(content@) {
            Ok(ps) => {
                &&& pairs_all_acceptable(ps) ==> (r is Ok && final(store).as_map() == apply_pairs(
                    old(store).as_map(),
                    ps,
                ))
                &&& !pairs_all_acceptable(ps) ==> (*final(store) == *old(store) && (r matches Err(
                    ErrorKind::InvalidInput(m),
                ) && exists|i: int|
                    #![auto]
                    0 <= i < ps.len() && !acceptable_key(ps[i].0) && m@ == store_key_error_text(
                        ps[i].0,
                    )))
            },
            Err(e) => *final(store) == *old(store) && (r matches Err(ErrorKind::ParsingError(m))
                && m@ == e),
        },
{
    match parse_dotenv_pairs(content) {
        Err(m) => Err(ErrorKind::ParsingError(m)),
        Ok(pairs) => load_pairs(store, &pairs),
    }
}

/// The rc text after persistently recording every pair in order.
pub open spec fn gload_rc(rc: Seq<char>, ps: Seq<(Seq<char>, Seq<char>)>) -> Seq<char>
    decreases ps.len(),
{
    if ps.len() == 0 {
        rc
    } else {
        persist_set_content(gload_rc(rc, ps.drop_last()), ps.last().0, ps.last().1)
    }
}

/// Every pair may be persisted: no space in the key, no `==` in the value.
pub open spec fn all_env_valid(ps: Seq<(Seq<char>, Seq<char>)>) -> bool {
    forall|i: int| 0 <= i < ps.len() ==> valid_env_var(#[trigger] ps[i].0, Some(ps[i].1))
}

/// The message the persistent backend gives for a pair it refuses.
pub open spec fn env_pair_error_text(k: Seq<char>) -> Seq<char> {
    if k.len() == 0 {
        "Variable name cannot be empty"@
    } else if k.contains(' ') {
        "Variable name cannot contain spaces"@
    } else {
        "Invalid variable format: value contains double equals"@
    }
}

/// Loads a dotenv text permanently: every pair is recorded in the rc
/// text — the new text is returned for the caller to write out — and
/// bound in the table. Text holding `==` is refused outright, and a pair
/// the backend refuses aborts the load before anything is applied.
pub fn load_permanent(store: &mut Store, rc_content: &str, content: &str) -> (r: Result<
    String,
    ErrorKind,
>)
    requires
        old(store).wf(),
    ensures
        final(store).wf(),
        contains_seq(content@, "=="@) ==> (*final(store) == *old(store) && (r matches Err(
            ErrorKind::ParsingError(m),
        ) && m@ == "Invalid file format: contains double equals"@)),
        !contains_seq(content@, "=="@) ==> match parse_dotenv_spec(content@) {
            Ok(ps) => {
                &&& all_env_valid(ps) ==> (r matches Ok(s) && s@ == gload_rc(rc_content@, ps)
                    && final(store).as_map() == apply_pairs(old(store).as_map(), ps))
                &&& !all_env_valid(ps) ==> (*final(store) == *old(store) && (r matches Err(
                    ErrorKind::CannotSetVariableGlobally(m),
                ) && exists|i: int|
                    #![auto]
                    0 <= i < ps.len() && !valid_env_var(ps[i].0, Some(ps[i].1)) && m@
                        == env_pair_error_text(ps[i].0)))
            },
            Err(e) => *final(store) == *old(store) && (r matches Err(ErrorKind::ParsingError(m))
                && m@ == e),
        },
{
    if contains_str(content, "==") {
        return Err(
            ErrorKind::ParsingError(
                String::from_str("Invalid file format: contains double equals"),
            ),
        );
    }
    match parse_dotenv_pairs(content) {
        Err(m) => Err(ErrorKind::ParsingError(m)),
        Ok(pairs) => {
            let ghost dv = pairs.deep_view();
            let n = pairs.len();
            let mut i: usize = 0;
            while i < n
                invariant
                    i <= n,
                    n == pairs@.len(),
                    dv == pairs.deep_view(),
                    dv.len() == n,
                    forall|x: int| 0 <= x < n ==> #[trigger] dv[x] == (pairs@[x].0@, pairs@[x].1@),
                    forall|j: int|
                        0 <= j < i ==> valid_env_var(#[trigger] dv[j].0, Some(dv[j].1)),
                    *store == *old(store),
                    store.wf(),
                    !contains_seq(content@, "=="@),
                    parse_dotenv_spec(content@) == Result::<
                        Seq<(Seq<char>, Seq<char>)>,
                        Seq<char>,
                    >::Ok(dv),
                decreases n - i,
            {
                match crate::env_ops::validate_env_var(
                    pairs[i].0.as_str(),
                    Some(pairs[i].1.as_str()),
                ) {
                    Err(m) => {
                        proof {
                            assert(!valid_env_var(dv[i as int].0, Some(dv[i as int].1)));
                            assert(m@ == env_pair_error_text(dv[i as int].0));
                        }
                        return Err(ErrorKind::CannotSetVariableGlobally(m));
                    },
                    Ok(()) => {},
                }
                i = i + 1;
            }
            let mut rc = String::from_str(rc_content);
            let mut k: usize = 0;
            proof {
                assert(dv.subrange(0, 0) =~= Seq::<(Seq<char>, Seq<char>)>::empty());
            }
            while k < n
                invariant
                    k <= n,
                    n == pairs@.len(),
                    dv == pairs.deep_view(),
                    dv.len() == n,
                    store.wf(),
                    forall|x: int| 0 <= x < n ==> #[trigger] dv[x] == (pairs@[x].0@, pairs@[x].1@),
                    forall|j: int|
                        0 <= j < n ==> valid_env_var(#[trigger] dv[j].0, Some(dv[j].1)),
                    rc@ == gload_rc(rc_content@, dv.subrange(0, k as int)),
                    store.as_map() == apply_pairs(old(store).as_map(), dv.subrange(0, k as int)),
                decreases n - k,
            {
                proof {
                    assert(valid_env_var(dv[k as int].0, Some(dv[k as int].1)));
                }
                let new_rc = match set_permanent_env(
                    rc.as_str(),
                    pairs[k].0.as_str(),
                    Some(pairs[k].1.as_str()),
                ) {
                    Ok(s) => s,
                    Err(_) => {
                        proof {
                            assert(false);
                        }
                        String::new()
                    },
                };
                rc = new_rc;
                store.set_value(pairs[k].0.as_str(), pairs[k].1.as_str());
                proof {
                    assert(dv.subrange(0, k + 1).drop_last() =~= dv.subrange(0, k as int));
                    assert(dv.subrange(0, k + 1).last() == dv[k as int]);
                }
                k = k + 1;
            }
            proof {
                assert(dv.subrange(0, n as int) =~= dv);
            }
            Ok(rc)
        },
    }
}

/// The rendering of one variable when printing them all without an
/// explicit format.
pub open spec fn default_print_format() -> Seq<char> {
    "{name} = \"{value}\""@
}

/// The keys of a store, in storage order.
pub open spec fn store_keys(s: Store) -> Seq<Seq<char>> {
    s.pairs().map_values(|p: (Seq<char>, Seq<char>)| p.0)
}

/// The suggestion lines shown under a failed lookup, one indented line
/// per similar name.
pub open spec fn suggestion_lines(names: Seq<Seq<char>>) -> Seq<char>
    decreases names.len(),
{
    if names.len() == 0 {
        Seq::<char>::empty()
    } else {
        suggestion_lines(names.drop_last()) + "  "@ + names.last() + seq!['\n']
    }
}

/// The block written after a failed lookup when suggestions are enabled:
/// empty when no name is similar enough, else a heading and the names.
pub open spec fn suggestions_block(key: Seq<char>, names: Seq<Seq<char>>) -> Seq<char> {
    let sim = filter_similar(key, names, SIMILARITY_THRESHOLD as int);
    if sim.len() == 0 {
        Seq::<char>::empty()
    } else {
        "Did you mean:"@ + seq!['\n'] + suggestion_lines(sim)
    }
}

/// What a command asks its caller to do once the store is updated: text
/// to print, an error or warning to report, a process to start, and new
/// rc-file text to write out.
pub struct CommandOutcome {
    /// Text for standard output.
    pub output: String,
    /// The error to report; the run failed exactly when this is set.
    pub error: Option<String>,
    /// A non-fatal condition to mention; the run still succeeds.
    pub warning: Option<String>,
    /// A process the caller should now start.
    pub process: Option<String>,
    /// New text for the rc file, to be written out by the caller.
    pub new_rc_content: Option<String>,
}

/// Builds the suggestion block for a key that was not found.
fn build_suggestions(store: &Store, key: &str) -> (r: String)
    ensures
        r@ == suggestions_block(key@, store_keys(*store)),
{
    let keys = store.keys();
    match find_similar_vars(key, keys) {
        None => String::new(),
        Some(names) => {
            let mut block = String::from_str("Did you mean:");
            push_char(&mut block, '\n');
            let ghost sim = filter_similar(key@, store_keys(*store), SIMILARITY_THRESHOLD as int);
            let mut i: usize = 0;
            let n = names.len();
            proof {
                assert(sim.subrange(0, 0) =~= Seq::<Seq<char>>::empty());
            }
            while i < n
                invariant
                    i <= n,
                    n == names@.len(),
                    names.deep_view() == sim,
                    sim.len() == n,
                    block@ == "Did you mean:"@ + seq!['\n'] + suggestion_lines(
                        sim.subrange(0, i as int),
                    ),
                    forall|x: int| 0 <= x < n ==> #[trigger] names.deep_view()[x] == names@[x]@,
                decreases n - i,
            {
                block.append("  ");
                block.append(names[i].as_str());
                push_char(&mut block, '\n');
                proof {
                    assert(sim.subrange(0, i + 1).drop_last() =~= sim.subrange(0, i as int));
                    assert(sim.subrange(0, i + 1).last() == sim[i as int]);
                    assert(block@ =~= "Did you mean:"@ + seq!['\n'] + suggestion_lines(
                        sim.subrange(0, i + 1),
                    ));
                }
                i = i + 1;
            }
            proof {
                assert(sim.subrange(0, n as int) =~= sim);
            }
            block
        },
    }
}

/// Runs one command against the store, the current rc-file text and —
/// for the loading commands — the text of the dotenv file. The returned
/// outcome says what to print, what failed, which process to start and
/// what to write back to the rc file.
pub fn run_command(store: &mut Store, cli: &Cli, rc_content: &str, file_content: Option<&str>) -> (
    o: CommandOutcome)
    requires
        old(store).wf(),
        (cli.command matches Commands::Load(_) || cli.command matches Commands::Gload(_))
            ==> file_content is Some,
    ensures
        final(store).wf(),
        match cli.command {
            Commands::Get(args) => {
                &&& *final(store) == *old(store)
                &&& o.process is None && o.new_rc_content is None && o.warning is None
                &&& old(store).as_map().contains_key(args.key@) ==> (o.error is None && o.output@
                    == quoted(old(store).as_map().index(args.key@)) + seq!['\n'])
                &&& !old(store).as_map().contains_key(args.key@) ==> ((o.error matches Some(m)
                    && m@ == "can't find '"@ + args.key@ + "'"@) && o.output@ == (
                if args.no_similar_names {
                    Seq::<char>::empty()
                } else {
                    suggestions_block(args.key@, store_keys(*old(store)))
                }))
            },
            Commands::SetVar(args) => {
                &&& o.output@ == Seq::<char>::empty() && o.warning is None
                    && o.new_rc_content is None
                &&& valid_var_name(args.key@) && acceptable_key(args.key@) ==> (o.error is None
                    && (o.process matches Some(p) && p@ == args.process@) && final(store).as_map()
                    == old(store).as_map().insert(args.key@, args.value@))
                &&& !(valid_var_name(args.key@) && acceptable_key(args.key@)) ==> (o.error is Some
                    && o.process is None && *final(store) == *old(store))
            },
            Commands::Delete(args) => {
                &&& o.output@ == Seq::<char>::empty() && o.new_rc_content is None
                &&& valid_var_name(args.key@) ==> (o.error is None && (o.process matches Some(p)
                    && p@ == args.process@))
                &&& valid_var_name(args.key@) && old(store).as_map().contains_key(args.key@) ==> (
                o.warning is None && final(store).as_map() == old(store).as_map().remove(
                    args.key@,
                ))
                &&& valid_var_name(args.key@) && !old(store).as_map().contains_key(args.key@)
                    ==> ((o.warning matches Some(w) && w@ == "variable doesn't exists"@) && *final(store) == *old(store))
                &&& !valid_var_name(args.key@) ==> (o.error is Some && o.process is None
                    && o.warning is None && *final(store) == *old(store))
            },
            Commands::Gset(args) => {
                &&& o.output@ == Seq::<char>::empty() && o.warning is None && o.process is None
                &&& valid_env_var(args.key@, Some(args.value@)) ==> (o.error is None
                    && (o.new_rc_content matches Some(s) && s@ == persist_set_content(
                    rc_content@,
                    args.key@,
                    args.value@,
                )) && final(store).as_map() == old(store).as_map().insert(args.key@, args.value@))
                &&& !valid_env_var(args.key@, Some(args.value@)) ==> (o.error is Some
                    && o.new_rc_content is None && *final(store) == *old(store))
            },
            Commands::Gdelete(args) => {
                &&& o.output@ == Seq::<char>::empty() && o.warning is None && o.process is None
                &&& valid_env_var(args.key@, None) ==> (o.error is None && (
                o.new_rc_content matches Some(s) && s@ == removed_content(rc_content@, args.key@))
                    && final(store).as_map() == old(store).as_map().remove(args.key@))
                &&& !valid_env_var(args.key@, None) ==> (o.error is Some
                    && o.new_rc_content is None && *final(store) == *old(store))
            },
            Commands::Load(args) => {
                &&& o.output@ == Seq::<char>::empty() && o.warning is None
                    && o.new_rc_content is None
                &&& match parse_dotenv_spec(file_content->Some_0@) {
                    Ok(ps) => {
                        &&& pairs_all_acceptable(ps) ==> (o.error is None && (o.process matches Some(
                            p,
                        ) && p@ == args.process@) && final(store).as_map() == apply_pairs(
                            old(store).as_map(),
                            ps,
                        ))
                        &&& !pairs_all_acceptable(ps) ==> (o.error is Some && o.process is None
                            && *final(store) == *old(store))
                    },
                    Err(e) => (o.error matches Some(m) && m@ == e) && o.process is None && *final(store) == *old(store),
                }
            },
            Commands::Gload(args) => {
                &&& o.output@ == Seq::<char>::empty() && o.warning is None && o.process is None
                &&& contains_seq(file_content->Some_0@, "=="@) ==> ((o.error matches Some(m) && m@
                    == "Invalid file format: contains double equals"@) && o.new_rc_content is None
                    && *final(store) == *old(store))
                &&& !contains_seq(file_content->Some_0@, "=="@) ==> match parse_dotenv_spec(
                    file_content->Some_0@,
                ) {
                    Ok(ps) => {
                        &&& all_env_valid(ps) ==> (o.error is None && (o.new_rc_content matches Some(
                            s,
                        ) && s@ == gload_rc(rc_content@, ps)) && final(store).as_map()
                            == apply_pairs(old(store).as_map(), ps))
                        &&& !all_env_valid(ps) ==> (o.error is Some && o.new_rc_content is None
                            && *final(store) == *old(store))
                    },
                    Err(e) => (o.error matches Some(m) && m@ == e) && o.new_rc_content is None
                        && *final(store) == *old(store),
                }
            },
            Commands::Print => {
                &&& *final(store) == *old(store)
                &&& o.error is None && o.warning is None && o.process is None
                    && o.new_rc_content is None
                &&& o.output@ == print_env_text(old(store).pairs(), default_print_format())
            },
        },
{
    match &cli.command {
        Commands::Get(args) => {
            match get(store, args) {
                Ok(value) => {
                    let mut out = quote_value(value.as_str());
                    push_char(&mut out, '\n');
                    CommandOutcome {
                        output: out,
                        error: None,
                        warning: None,
                        process: None,
                        new_rc_content: None,
                    }
                },
                Err(e) => {
                    let output = if args.no_similar_names {
                        String::new()
                    } else {
                        build_suggestions(store, args.key.as_str())
                    };
                    CommandOutcome {
                        output,
                        error: Some(e.message()),
                        warning: None,
                        process: None,
                        new_rc_content: None,
                    }
                },
            }
        },
        Commands::SetVar(args) => {
            match set(store, args) {
                Ok(()) => CommandOutcome {
                    output: String::new(),
                    error: None,
                    warning: None,
                    process: Some(args.process.clone()),
                    new_rc_content: None,
                },
                Err(e) => CommandOutcome {
                    output: String::new(),
                    error: Some(e.message()),
                    warning: None,
                    process: None,
                    new_rc_content: None,
                },
            }
        },
        Commands::Delete(args) => {
            match delete(store, args) {
                Ok(removed) => CommandOutcome {
                    output: String::new(),
                    error: None,
                    warning: if removed {
                        None
                    } else {
                        Some(String::from_str("variable doesn't exists"))
                    },
                    process: Some(args.process.clone()),
                    new_rc_content: None,
                },
                Err(e) => CommandOutcome {
                    output: String::new(),
                    error: Some(e.message()),
                    warning: None,
                    process: None,
                    new_rc_content: None,
                },
            }
        },
        Commands::Gset(args) => {
            match set_permanent_env(rc_content, args.key.as_str(), Some(args.value.as_str())) {
                Ok(new_rc) => {
                    store.set_value(args.key.as_str(), args.value.as_str());
                    CommandOutcome {
                        output: String::new(),
                        error: None,
                        warning: None,
                        process: None,
                        new_rc_content: Some(new_rc),
                    }
                },
                Err(m) => CommandOutcome {
                    output: String::new(),
                    error: Some(m),
                    warning: None,
                    process: None,
                    new_rc_content: None,
                },
            }
        },
        Commands::Gdelete(args) => {
            match set_permanent_env(rc_content, args.key.as_str(), None) {
                Ok(new_rc) => {
                    store.remove_value(args.key.as_str());
                    CommandOutcome {
                        output: String::new(),
                        error: None,
                        warning: None,
                        process: None,
                        new_rc_content: Some(new_rc),
                    }
                },
                Err(m) => CommandOutcome {
                    output: String::new(),
                    error: Some(m),
                    warning: None,
                    process: None,
                    new_rc_content: None,
                },
            }
        },
        Commands::Load(args) => {
            let content = match file_content {
                Some(c) => c,
                None => "",
            };
            match load(store, content) {
                Ok(()) => CommandOutcome {
                    output: String::new(),
                    error: None,
                    warning: None,
                    process: Some(args.process.clone()),
                    new_rc_content: None,
                },
                Err(e) => CommandOutcome {
                    output: String::new(),
                    error: Some(e.message()),
                    warning: None,
                    process: None,
                    new_rc_content: None,
                },
            }
        },
        Commands::Gload(_args) => {
            let content = match file_content {
                Some(c) => c,
                None => "",
            };
            match load_permanent(store, rc_content, content) {
                Ok(new_rc) => CommandOutcome {
                    output: String::new(),
                    error: None,
                    warning: None,
                    process: None,
                    new_rc_content: Some(new_rc),
                },
                Err(e) => CommandOutcome {
                    output: String::new(),
                    error: Some(e.message()),
                    warning: None,
                    process: None,
                    new_rc_content: None,
                },
            }
        },
        Commands::Print => {
            let out = crate::variables::print_env("{name} = \"{value}\"", store);
            CommandOutcome {
                output: out,
                error: None,
                warning: None,
                process: None,
                new_rc_content: None,
            }
        },
    }
}

/// For every valid pair — a non-empty key without a space that the table
/// can hold — a `set` followed by a `get` of the same key yields exactly
/// the value that was set: `set` leaves the store's map with the pair
/// inserted, and `get` returns precisely what the map holds at the key.
pub proof fn lemma_set_get_round_trip(
    m: Map<Seq<char>, Seq<char>>,
    key: Seq<char>,
    value: Seq<char>,
)
    requires
        valid_var_name(key),
        acceptable_key(key),
    ensures
        m.insert(key, value).contains_key(key),
        m.insert(key, value).index(key) == value,
{
}

} // verus!
