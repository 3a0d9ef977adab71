//! Properties of resolution that hold for every mailmap.
use vstd::prelude::*;
use crate::mailmap::{
    add_model, best_match, key_matches, last_match, lemma_last_match, resolve_model,
    EntryModel, Mailmap,
};
use crate::text::{fold_code, same_folded};

verus! {

proof fn lemma_folded_trans(a: Seq<char>, b: Seq<char>, c: Seq<char>)
    requires
        same_folded(a, b),
        same_folded(b, c),
    ensures
        same_folded(a, c),
        same_folded(c, a),
{
    assert forall|i: int| 0 <= i < a.len() implies #[trigger] fold_code(a[i]) == fold_code(c[i]) by {
        assert(fold_code(b[i]) == fold_code(c[i]));
    }
    assert forall|i: int| 0 <= i < c.len() implies #[trigger] fold_code(c[i]) == fold_code(a[i]) by {
        assert(fold_code(a[i]) == fold_code(b[i]));
    }
}

proof fn lemma_folded_refl(a: Seq<char>)
    ensures
        same_folded(a, a),
{
}

/// If entry `k` matches a key and no later one does, it is the last match.
proof fn lemma_last_match_is(
    entries: Seq<EntryModel>,
    name: Option<Seq<char>>,
    email: Seq<char>,
    k: int,
)
    requires
        0 <= k < entries.len(),
        key_matches(entries[k], name, email),
        forall|j: int| k < j < entries.len() ==> !key_matches(#[trigger] entries[j], name, email),
    ensures
        last_match(entries, name, email, entries.len() as int) == k,
{
    lemma_last_match(entries, name, email, entries.len() as int);
}

/// A pair whose email no rule matches resolves to itself.
pub proof fn identity_when_unmatched(m: &Mailmap, name: Seq<char>, email: Seq<char>)
    requires
        forall|i: int| 0 <= i < m@.len() ==> !same_folded(#[trigger] m@[i].replace_email, email),
    ensures
        resolve_model(m@, name, email) == (name, email),
{
    lemma_last_match(m@, Some(name), email, m@.len() as int);
    lemma_last_match(m@, None, email, m@.len() as int);
}

/// Resolving a resolved pair again changes nothing, as long as no rule
/// matches the resolved email.
pub proof fn resolve_is_idempotent(m: &Mailmap, name: Seq<char>, email: Seq<char>)
    requires
        forall|i: int|
            0 <= i < m@.len() ==> !same_folded(
                #[trigger] m@[i].replace_email,
                resolve_model(m@, name, email).1,
            ),
    ensures
        ({
            let (n, e) = resolve_model(m@, name, email);
            resolve_model(m@, n, e) == (n, e)
        }),
{
    let (n, e) = resolve_model(m@, name, email);
    identity_when_unmatched(m, n, e);
}

/// A rule qualified by the queried name decides over any rule that
/// matches every name.
pub proof fn qualified_rule_wins(m: &Mailmap, name: Seq<char>, email: Seq<char>, i: int)
    requires
        0 <= i < m@.len(),
        key_matches(m@[i], Some(name), email),
    ensures
        best_match(m@, name, email) >= 0,
        m@[best_match(m@, name, email)].replace_name == Some(name),
{
    lemma_last_match(m@, Some(name), email, m@.len() as int);
}

/// Only the ASCII case of the queried email is ignored: emails that agree
/// up to it are decided by the same rule.
pub proof fn email_case_ignored(m: &Mailmap, name: Seq<char>, email1: Seq<char>, email2: Seq<char>)
    requires
        same_folded(email1, email2),
    ensures
        best_match(m@, name, email1) == best_match(m@, name, email2),
{
    let s = m@;
    assert forall|k: int| 0 <= k < s.len() implies same_folded(#[trigger] s[k].replace_email, email1)
        == same_folded(s[k].replace_email, email2) by {
        if same_folded(s[k].replace_email, email1) {
            lemma_folded_trans(s[k].replace_email, email1, email2);
        }
        if same_folded(s[k].replace_email, email2) {
            lemma_folded_trans(email1, email2, email2);
            lemma_folded_trans(email2, email1, email1);
            lemma_folded_trans(s[k].replace_email, email2, email1);
        }
    }
    lemma_same_last_match(s, Some(name), email1, email2, s.len() as int);
    lemma_same_last_match(s, None, email1, email2, s.len() as int);
}

proof fn lemma_same_last_match(
    s: Seq<EntryModel>,
    nm: Option<Seq<char>>,
    email1: Seq<char>,
    email2: Seq<char>,
    n: int,
)
    requires
        0 <= n <= s.len(),
        forall|k: int|
            0 <= k < s.len() ==> same_folded(#[trigger] s[k].replace_email, email1)
                == same_folded(s[k].replace_email, email2),
    ensures
        last_match(s, nm, email1, n) == last_match(s, nm, email2, n),
    decreases n,
{
    if n > 0 {
        lemma_same_last_match(s, nm, email1, email2, n - 1);
    }
}

/// Adding a rule whose key is already held replaces that rule where it
/// stands: the number of rules is unchanged, and a query on that key is
/// then decided by the new rule (for a rule that matches every name, on a
/// name that no qualified rule claims).
pub proof fn readding_replaces(m: &Mailmap, e: EntryModel, name: Seq<char>)
    requires
        m.wf(),
        e.replace_email.len() > 0,
        last_match(m@, e.replace_name, e.replace_email, m@.len() as int) >= 0,
        e.replace_name == Some(name) || (e.replace_name is None && last_match(
            add_model(m@, e),
            Some(name),
            e.replace_email,
            m@.len() as int,
        ) < 0),
    ensures
        add_model(m@, e).len() == m@.len(),
        add_model(m@, e)[last_match(m@, e.replace_name, e.replace_email, m@.len() as int)] == e,
        best_match(add_model(m@, e), name, e.replace_email) == last_match(
            m@,
            e.replace_name,
            e.replace_email,
            m@.len() as int,
        ),
        resolve_model(add_model(m@, e), name, e.replace_email) == (
            match e.real_name {
                Some(n) => n,
                None => name,
            },
            match e.real_email {
                Some(x) => x,
                None => e.replace_email,
            },
        ),
{
    let s = m@;
    let n = s.len() as int;
    lemma_last_match(s, e.replace_name, e.replace_email, n);
    let k = last_match(s, e.replace_name, e.replace_email, n);
    let t = add_model(s, e);
    lemma_folded_refl(e.replace_email);
    assert forall|j: int| k < j < n implies !key_matches(
        #[trigger] t[j],
        e.replace_name,
        e.replace_email,
    ) by {
        if key_matches(t[j], e.replace_name, e.replace_email) {
            lemma_folded_trans(s[k].replace_email, e.replace_email, s[j].replace_email);
            assert(!key_matches(s[k], s[j].replace_name, s[j].replace_email));
        }
    }
    lemma_last_match_is(t, e.replace_name, e.replace_email, k);
}

/// After a rule is added, a query on its key is decided by it (for a rule
/// that matches every name, on a name that no qualified rule claims).
pub proof fn added_rule_decides(m: &Mailmap, e: EntryModel, name: Seq<char>)
    requires
        m.wf(),
        e.replace_email.len() > 0,
        e.replace_name == Some(name) || (e.replace_name is None && last_match(
            add_model(m@, e),
            Some(name),
            e.replace_email,
            add_model(m@, e).len() as int,
        ) < 0),
    ensures
        resolve_model(add_model(m@, e), name, e.replace_email) == (
            match e.real_name {
                Some(n) => n,
                None => name,
            },
            match e.real_email {
                Some(x) => x,
                None => e.replace_email,
            },
        ),
{
    let s = m@;
    let n = s.len() as int;
    lemma_last_match(s, e.replace_name, e.replace_email, n);
    let k = last_match(s, e.replace_name, e.replace_email, n);
    if k >= 0 {
        readding_replaces(m, e, name);
    } else {
        let t = add_model(s, e);
        lemma_folded_refl(e.replace_email);
        lemma_last_match_is(t, e.replace_name, e.replace_email, n);
    }
}

} // verus!
