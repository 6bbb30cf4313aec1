//! The rc-file persistent backend, modelled as a pure rewrite of the
//! file's text. A variable is recorded as a line `export KEY="VALUE"`.
//! Recording first removes every line that assigns the key — whatever
//! quoting style it used — so that repeated writes never accumulate
//! duplicates, drops blank lines, and finally appends the new assignment.
//! Reading and writing the file itself happens outside the library; the
//! functions here turn the old text into the new text.

use vstd::prelude::*;

use crate::text::{
    contains_char, contains_seq, contains_str, is_blank, is_blank_str, join_lines, join_nl,
    matches_at, push_char, split_lines, split_to_lines,
};

verus! {

/// The prefix every assignment of `key` starts from: `export KEY=`.
/// Matching on this prefix covers the unquoted, double-quoted and
/// single-quoted forms alike.
pub open spec fn assign_pattern(key: Seq<char>) -> Seq<char> {
    "export "@ + key + "="@
}

/// Whether a line assigns `key`, in any quoting style.
pub open spec fn assigns_key(line: Seq<char>, key: Seq<char>) -> bool {
    contains_seq(line, assign_pattern(key))
}

/// Whether a line survives the rewrite for `key`: it is not blank and
/// does not assign `key`.
pub open spec fn line_kept(line: Seq<char>, key: Seq<char>) -> bool {
    !is_blank(line) && !assigns_key(line, key)
}

/// The lines of `content` that survive the rewrite for `key`.
pub open spec fn kept_lines(content: Seq<char>, key: Seq<char>) -> Seq<Seq<char>> {
    split_lines(content).filter(|l: Seq<char>| line_kept(l, key))
}

/// The text after removing every assignment of `key` and every blank
/// line: the kept lines, newline-terminated.
pub open spec fn removed_content(content: Seq<char>, key: Seq<char>) -> Seq<char> {
    join_nl(kept_lines(content, key)) + seq!['\n']
}

/// The line recording `key = value`, double-quoted and without its
/// terminating newline.
pub open spec fn export_line(key: Seq<char>, value: Seq<char>) -> Seq<char> {
    "export "@ + key + "=\""@ + value + "\""@
}

/// The text after persistently recording `key = value` in `content`.
pub open spec fn persist_set_content(content: Seq<char>, key: Seq<char>, value: Seq<char>) -> Seq<
    char,
> {
    removed_content(content, key) + export_line(key, value) + seq!['\n']
}

/// A key/value pair the persistent backend accepts: a non-empty key with
/// no space in it, and no `==` inside the value.
pub open spec fn valid_env_var(key: Seq<char>, value: Option<Seq<char>>) -> bool {
    key.len() > 0 && !key.contains(' ') && match value {
        Some(v) => !contains_seq(v, "=="@),
        None => true,
    }
}

/// Checks a pair before it is persisted, applying the name validator's
/// rules first: an empty key or one with a space is refused, and so is a
/// value holding `==`, which would collide with the serialized form on a
/// later read.
pub fn validate_env_var(key: &str, value: Option<&str>) -> (r: Result<(), String>)
    ensures
        r is Ok <==> valid_env_var(key@, match value {
            Some(v) => Some(v@),
            None => None,
        }),
        key@.len() == 0 ==> (r matches Err(m) && m@ == "Variable name cannot be empty"@),
        key@.len() > 0 && key@.contains(' ') ==> (r matches Err(m) && m@
            == "Variable name cannot contain spaces"@),
        key@.len() > 0 && !key@.contains(' ') ==> match value {
            Some(v) => contains_seq(v@, "=="@) ==> (r matches Err(m) && m@
                == "Invalid variable format: value contains double equals"@),
            None => true,
        },
{
    if key.unicode_len() == 0 {
        return Err(String::from_str("Variable name cannot be empty"));
    }
    if contains_char(key, ' ') {
        return Err(String::from_str("Variable name cannot contain spaces"));
    }
    match value {
        Some(v) => {
            if contains_str(v, "==") {
                return Err(
                    String::from_str("Invalid variable format: value contains double equals"),
                );
            }
        },
        None => {},
    }
    Ok(())
}

/// Builds the `export KEY=` prefix for `key`.
fn build_pattern(key: &str) -> (r: String)
    ensures
        r@ == assign_pattern(key@),
{
    let mut r = String::from_str("export ");
    r.append(key);
    r.append("=");
    r
}

/// Removes from `content` every line that assigns `key` — matching the
/// unquoted, double-quoted and single-quoted forms — and every blank
/// line, leaving the rest newline-terminated.
pub fn remove_existing_var(content: &mut String, key: &str)
    ensures
        final(content)@ == removed_content(old(content)@, key@),
{
    let lines = split_to_lines(content.as_str());
    let pattern = build_pattern(key);
    let mut kept: Vec<String> = Vec::new();
    let mut i: usize = 0;
    let n = lines.len();
    let ghost pred = |l: Seq<char>| line_kept(l, key@);
    proof {
        assert(lines.deep_view().subrange(0, 0) =~= Seq::<Seq<char>>::empty());
        assert(Seq::<Seq<char>>::empty().filter(pred) =~= Seq::<Seq<char>>::empty());
        assert(kept.deep_view() =~= Seq::<Seq<char>>::empty());
    }
    while i < n
        invariant
            i <= n,
            n == lines@.len(),
            lines.deep_view().len() == n,
            lines.deep_view() == split_lines(old(content)@),
            pattern@ == assign_pattern(key@),
            pred == (|l: Seq<char>| line_kept(l, key@)),
            kept.deep_view() == lines.deep_view().subrange(0, i as int).filter(pred),
            forall|j: int| 0 <= j < n ==> #[trigger] lines.deep_view()[j] == lines@[j]@,
        decreases n - i,
    {
        let keep = !is_blank_str(lines[i].as_str()) && !contains_str(lines[i].as_str(), pattern.as_str());
        let ghost dv = lines.deep_view();
        let ghost before = kept.deep_view();
        if keep {
            kept.push(lines[i].clone());
        }
        proof {
            assert(dv.subrange(0, i + 1) =~= dv.subrange(0, i as int).push(dv[i as int]));
            dv.subrange(0, i as int).lemma_filter_push(dv[i as int], pred);
            if keep {
                assert(kept.deep_view() =~= before.push(dv[i as int]));
            }
        }
        i = i + 1;
    }
    proof {
        assert(lines.deep_view().subrange(0, n as int) =~= lines.deep_view());
    }
    let mut out = join_lines(&kept);
    push_char(&mut out, '\n');
    proof {
        assert(out@ =~= removed_content(old(content)@, key@));
    }
    *content = out;
}

/// The concrete characters of the literals the rc-file format uses.
proof fn lemma_format_literals()
    ensures
        "export "@ =~= seq!['e', 'x', 'p', 'o', 'r', 't', ' '],
        "="@ =~= seq!['='],
        "=\""@ =~= seq!['=', '"'],
        "\""@ =~= seq!['"'],
{
    reveal_strlit("export ");
    reveal_strlit("=");
    reveal_strlit("=\"");
    reveal_strlit("\"");
}

/// An empty line assigns no key: the assignment prefix alone is longer.
proof fn lemma_empty_not_assigns(key: Seq<char>)
    ensures
        !assigns_key(Seq::<char>::empty(), key),
{
    lemma_format_literals();
    assert(assign_pattern(key).len() >= 8);
}

/// The export line of a newline-free pair is a single line.
proof fn lemma_export_line_no_newline(key: Seq<char>, value: Seq<char>)
    requires
        !key.contains('\n'),
        !value.contains('\n'),
    ensures
        !export_line(key, value).contains('\n'),
{
    lemma_format_literals();
    let a = "export "@;
    let b = "=\""@;
    let c = "\""@;
    let e = export_line(key, value);
    assert forall|i: int| 0 <= i < e.len() implies e[i] != '\n' by {
        if i < a.len() {
            assert(e[i] == a[i]);
        } else if i < a.len() + key.len() {
            assert(e[i] == key[i - a.len()]);
            if e[i] == '\n' {
                assert(key.contains('\n'));
            }
        } else if i < a.len() + key.len() + b.len() {
            assert(e[i] == b[i - a.len() - key.len()]);
        } else if i < a.len() + key.len() + b.len() + value.len() {
            assert(e[i] == value[i - a.len() - key.len() - b.len()]);
            if e[i] == '\n' {
                assert(value.contains('\n'));
            }
        } else {
            assert(e[i] == c[i - a.len() - key.len() - b.len() - value.len()]);
        }
    }
    if e.contains('\n') {
        let i = choose|i: int| 0 <= i < e.len() && e[i] == '\n';
        assert(false);
    }
}

/// The export line of a pair assigns its key.
proof fn lemma_export_line_assigns(key: Seq<char>, value: Seq<char>)
    ensures
        assigns_key(export_line(key, value), key),
{
    lemma_format_literals();
    let e = export_line(key, value);
    let p = assign_pattern(key);
    assert(e.subrange(0, p.len() as int) =~= p);
    assert(matches_at(e, p, 0));
}

/// Filtering keeps a sequence whose elements all satisfy the predicate.
proof fn lemma_filter_all(s: Seq<Seq<char>>, pred: spec_fn(Seq<char>) -> bool)
    requires
        forall|i: int| 0 <= i < s.len() ==> pred(#[trigger] s[i]),
    ensures
        s.filter(pred) == s,
    decreases s.len(),
{
    if s.len() == 0 {
        s.lemma_filter_len(pred);
        assert(s.filter(pred) =~= s);
    } else {
        let rest = s.drop_last();
        assert(forall|i: int| 0 <= i < rest.len() ==> pred(#[trigger] rest[i])) by {
            assert(forall|i: int| 0 <= i < rest.len() ==> rest[i] == s[i]);
        }
        lemma_filter_all(rest, pred);
        rest.lemma_filter_push(s.last(), pred);
        assert(rest.push(s.last()) =~= s);
    }
}

/// The lines of the rewritten text: the kept lines, or one empty line
/// when nothing was kept.
pub open spec fn rewritten_lines(content: Seq<char>, key: Seq<char>) -> Seq<Seq<char>> {
    if kept_lines(content, key).len() == 0 {
        seq![Seq::<char>::empty()]
    } else {
        kept_lines(content, key)
    }
}

/// Every kept line is newline-free.
proof fn lemma_kept_no_newline(content: Seq<char>, key: Seq<char>)
    ensures
        forall|i: int|
            0 <= i < kept_lines(content, key).len() ==> !#[trigger] kept_lines(content, key)[i].contains('\n'),
{
    crate::text::lemma_split_no_newline(content);
    let kept = kept_lines(content, key);
    let pred = |l: Seq<char>| line_kept(l, key);
    assert forall|i: int| 0 <= i < kept.len() implies !#[trigger] kept[i].contains('\n') by {
        assert(kept.contains(kept[i]));
        split_lines(content).lemma_filter_contains_rev(pred, kept[i]);
        let j = choose|j: int|
            0 <= j < split_lines(content).len() && split_lines(content)[j] == kept[i];
        assert(!split_lines(content)[j].contains('\n'));
    }
}

/// How the text recorded by `persist_set_content` splits back into lines:
/// the kept lines, one assignment of the key, one empty tail segment.
pub proof fn lemma_persist_set_lines(content: Seq<char>, key: Seq<char>, value: Seq<char>)
    requires
        !key.contains('\n'),
        !value.contains('\n'),
    ensures
        split_lines(persist_set_content(content, key, value)) == rewritten_lines(content, key)
            + seq![export_line(key, value), Seq::<char>::empty()],
{
    let kept = kept_lines(content, key);
    let e = export_line(key, value);
    let joined = join_nl(kept);
    lemma_export_line_no_newline(key, value);
    assert(persist_set_content(content, key, value) =~= joined + seq!['\n'] + (e + seq!['\n']));
    crate::text::lemma_split_append(joined, e + seq!['\n']);
    assert(e + seq!['\n'] =~= e + seq!['\n'] + Seq::<char>::empty());
    crate::text::lemma_split_append(e, Seq::<char>::empty());
    crate::text::lemma_split_single(e);
    assert(split_lines(Seq::<char>::empty()) =~= seq![Seq::<char>::empty()]);
    assert(split_lines(e + seq!['\n']) =~= seq![e, Seq::<char>::empty()]);
    if kept.len() == 0 {
        assert(joined =~= Seq::<char>::empty());
        assert(split_lines(joined) =~= seq![Seq::<char>::empty()]);
    } else {
        lemma_kept_no_newline(content, key);
        crate::text::lemma_split_join(kept);
    }
    assert(split_lines(persist_set_content(content, key, value)) =~= rewritten_lines(content, key)
        + seq![e, Seq::<char>::empty()]);
}

/// Recording a value does not disturb the lines kept for that key:
/// re-running the rewrite finds the same surviving lines.
pub proof fn lemma_kept_after_persist(content: Seq<char>, key: Seq<char>, value: Seq<char>)
    requires
        !key.contains('\n'),
        !value.contains('\n'),
    ensures
        kept_lines(persist_set_content(content, key, value), key) == kept_lines(content, key),
{
    let kept = kept_lines(content, key);
    let e = export_line(key, value);
    let pred = |l: Seq<char>| line_kept(l, key);
    lemma_persist_set_lines(content, key, value);
    let tail = seq![e, Seq::<char>::empty()];
    Seq::filter_distributes_over_add(rewritten_lines(content, key), tail, pred);
    lemma_export_line_assigns(key, value);
    lemma_empty_not_assigns(key);
    assert(tail =~= Seq::<Seq<char>>::empty().push(e).push(Seq::<char>::empty()));
    Seq::<Seq<char>>::empty().lemma_filter_len(pred);
    assert(Seq::<Seq<char>>::empty().filter(pred) =~= Seq::<Seq<char>>::empty());
    Seq::<Seq<char>>::empty().lemma_filter_push(e, pred);
    Seq::<Seq<char>>::empty().push(e).lemma_filter_push(Seq::<char>::empty(), pred);
    assert(tail.filter(pred) =~= Seq::<Seq<char>>::empty());
    if kept.len() == 0 {
        assert(rewritten_lines(content, key) =~= Seq::<Seq<char>>::empty().push(
            Seq::<char>::empty(),
        ));
        assert(is_blank(Seq::<char>::empty()));
        assert(!pred(Seq::<char>::empty()));
        Seq::<Seq<char>>::empty().lemma_filter_push(Seq::<char>::empty(), pred);
        assert(rewritten_lines(content, key).filter(pred) =~= Seq::<Seq<char>>::empty());
        assert(kept_lines(persist_set_content(content, key, value), key) =~= kept);
    } else {
        assert(forall|i: int| 0 <= i < kept.len() ==> pred(#[trigger] kept[i])) by {
            assert forall|i: int| 0 <= i < kept.len() implies pred(#[trigger] kept[i]) by {
                split_lines(content).lemma_filter_pred(pred, i);
            }
        }
        lemma_filter_all(kept, pred);
        assert(kept_lines(persist_set_content(content, key, value), key) =~= kept);
    }
}

/// Recording the same key twice leaves exactly one assignment of it:
/// after `persist_set_content(…, key, v1)` and again with `v2`, the lines
/// of the final text that assign `key` are exactly one line, recording
/// `v2`. The rewrite removes every earlier assignment before appending.
pub proof fn lemma_persist_set_idempotent(
    content: Seq<char>,
    key: Seq<char>,
    v1: Seq<char>,
    v2: Seq<char>,
)
    requires
        !key.contains('\n'),
        !v1.contains('\n'),
        !v2.contains('\n'),
    ensures
        split_lines(
            persist_set_content(persist_set_content(content, key, v1), key, v2),
        ).filter(|l: Seq<char>| assigns_key(l, key)) == seq![export_line(key, v2)],
{
    let once = persist_set_content(content, key, v1);
    let e2 = export_line(key, v2);
    let apred = |l: Seq<char>| assigns_key(l, key);
    lemma_kept_after_persist(content, key, v1);
    lemma_persist_set_lines(once, key, v2);
    assert(rewritten_lines(once, key) == rewritten_lines(content, key));
    let base = rewritten_lines(content, key);
    let tail = seq![e2, Seq::<char>::empty()];
    Seq::filter_distributes_over_add(base, tail, apred);
    lemma_export_line_assigns(key, v2);
    lemma_empty_not_assigns(key);
    assert(tail =~= Seq::<Seq<char>>::empty().push(e2).push(Seq::<char>::empty()));
    Seq::<Seq<char>>::empty().lemma_filter_len(apred);
    assert(Seq::<Seq<char>>::empty().filter(apred) =~= Seq::<Seq<char>>::empty());
    Seq::<Seq<char>>::empty().lemma_filter_push(e2, apred);
    Seq::<Seq<char>>::empty().push(e2).lemma_filter_push(Seq::<char>::empty(), apred);
    assert(tail.filter(apred) =~= seq![e2]);
    let kept = kept_lines(content, key);
    let kpred = |l: Seq<char>| line_kept(l, key);
    assert(forall|i: int| 0 <= i < base.len() ==> !apred(#[trigger] base[i])) by {
        assert forall|i: int| 0 <= i < base.len() implies !apred(#[trigger] base[i]) by {
            if kept.len() == 0 {
                assert(base[i] =~= Seq::<char>::empty());
            } else {
                split_lines(content).lemma_filter_pred(kpred, i);
            }
        }
    }
    base.lemma_all_neg_filter_empty(apred);
    assert(base.filter(apred) =~= Seq::<Seq<char>>::empty());
    assert(split_lines(persist_set_content(once, key, v2)).filter(apred) =~= seq![e2]);
}

/// Records `key = value` in the rc text, or removes `key` from it when
/// `value` is `None`. The pair is validated first; the text is rewritten
/// so that at most one assignment of `key` remains.
pub fn set_permanent_env(content: &str, key: &str, value: Option<&str>) -> (r: Result<
    String,
    String,
>)
    ensures
        match value {
            Some(v) => valid_env_var(key@, Some(v@)) ==> (r matches Ok(s) && s@
                == persist_set_content(content@, key@, v@)),
            None => valid_env_var(key@, None) ==> (r matches Ok(s) && s@ == removed_content(
                content@,
                key@,
            )),
        },
        key@.len() == 0 ==> (r matches Err(m) && m@ == "Variable name cannot be empty"@),
        key@.len() > 0 && key@.contains(' ') ==> (r matches Err(m) && m@
            == "Variable name cannot contain spaces"@),
        key@.len() > 0 && !key@.contains(' ') ==> match value {
            Some(v) => contains_seq(v@, "=="@) ==> (r matches Err(m) && m@
                == "Invalid variable format: value contains double equals"@),
            None => true,
        },
{
    match validate_env_var(key, value) {
        Err(m) => Err(m),
        Ok(()) => {
            let mut out = String::from_str(content);
            remove_existing_var(&mut out, key);
            match value {
                Some(val) => {
                    out.append("export ");
                    out.append(key);
                    out.append("=\"");
                    out.append(val);
                    out.append("\"");
                    push_char(&mut out, '\n');
                    proof {
                        assert(out@ =~= persist_set_content(content@, key@, val@));
                    }
                    Ok(out)
                },
                None => Ok(out),
            }
        },
    }
}

} // verus!
