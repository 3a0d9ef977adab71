//! The entry store and the resolver.
use vstd::prelude::*;
use crate::error::Error;
use crate::parse::{find_char, parse_entries, parse_line_exec};
use crate::repository::{Repository, Source};
use crate::signature::{signature_text, Signature, SignatureModel};
use crate::text::{chars_of, decode_text, eq_exact, eq_folded, same_folded};
use vstd::utf8::{decode_utf8, valid_utf8};

verus! {

/// One rule, as values: who it matches and what it substitutes.
pub struct EntryModel {
    pub real_name: Option<Seq<char>>,
    pub real_email: Option<Seq<char>>,
    pub replace_name: Option<Seq<char>>,
    pub replace_email: Seq<char>,
}

/// The text of an optional string.
pub open spec fn opt_view(o: Option<String>) -> Option<Seq<char>> {
    match o {
        Some(s) => Some(s@),
        None => None,
    }
}

/// The text of an optional string slice.
pub open spec fn opt_str_view(o: Option<&str>) -> Option<Seq<char>> {
    match o {
        Some(s) => Some(s@),
        None => None,
    }
}

/// The text of optional characters.
pub open spec fn opt_chars_view(o: Option<Vec<char>>) -> Option<Seq<char>> {
    match o {
        Some(s) => Some(s@),
        None => None,
    }
}

/// An entry matches a query key when the names agree (absent on both
/// sides, or equal) and the emails agree up to ASCII case.
pub open spec fn key_matches(e: EntryModel, name: Option<Seq<char>>, email: Seq<char>) -> bool {
    e.replace_name == name && same_folded(e.replace_email, email)
}

/// The last of the first `n` entries that matches the key, or -1.
pub open spec fn last_match(
    entries: Seq<EntryModel>,
    name: Option<Seq<char>>,
    email: Seq<char>,
    n: int,
) -> int
    decreases n,
{
    if n <= 0 {
        -1
    } else if key_matches(entries[n - 1], name, email) {
        n - 1
    } else {
        last_match(entries, name, email, n - 1)
    }
}

/// The entry that decides a query: one qualified by the queried name if
/// any, else one that matches any name; the latest of its kind. -1 if none.
pub open spec fn best_match(entries: Seq<EntryModel>, name: Seq<char>, email: Seq<char>) -> int {
    let q = last_match(entries, Some(name), email, entries.len() as int);
    if q >= 0 {
        q
    } else {
        last_match(entries, None, email, entries.len() as int)
    }
}

/// The identity that a query resolves to.
pub open spec fn resolve_model(entries: Seq<EntryModel>, name: Seq<char>, email: Seq<char>) -> (
    Seq<char>,
    Seq<char>,
) {
    let i = best_match(entries, name, email);
    if i < 0 {
        (name, email)
    } else {
        let e = entries[i];
        (
            match e.real_name {
                Some(n) => n,
                None => name,
            },
            match e.real_email {
                Some(m) => m,
                None => email,
            },
        )
    }
}

/// The entries after `e` is added: it takes the place of the entry with the
/// same key, or else comes last.
pub open spec fn add_model(entries: Seq<EntryModel>, e: EntryModel) -> Seq<EntryModel> {
    let i = last_match(entries, e.replace_name, e.replace_email, entries.len() as int);
    if i >= 0 {
        entries.update(i, e)
    } else {
        entries.push(e)
    }
}

/// The entries after each of `es` is added in turn.
pub open spec fn add_all(entries: Seq<EntryModel>, es: Seq<EntryModel>) -> Seq<EntryModel>
    decreases es.len(),
{
    if es.len() == 0 {
        entries
    } else {
        add_all(add_model(entries, es[0]), es.drop_first())
    }
}

/// The rules that a source contributes: those of its text, or none when it
/// is absent or not UTF-8.
pub open spec fn source_entries(s: &Source) -> Seq<EntryModel> {
    match s {
        Source::Contents(b) => if valid_utf8(b@) {
            parse_entries(decode_utf8(b@), 0)
        } else {
            Seq::empty()
        },
        _ => Seq::empty(),
    }
}

/// The rules of a repository's sources, each source on top of the ones
/// before it.
pub open spec fn repository_model(repo: &Repository) -> Seq<EntryModel> {
    add_all(
        add_all(add_all(Seq::empty(), source_entries(&repo.workdir)), source_entries(&repo.blob)),
        source_entries(&repo.file),
    )
}

/// Whether the repository failed to supply one of its sources.
pub open spec fn repository_failed(repo: &Repository) -> bool {
    repo.workdir is Failed || repo.blob is Failed || repo.file is Failed
}

/// Every entry has an email to match on, and no two share a key.
pub open spec fn valid_entries(entries: Seq<EntryModel>) -> bool {
    &&& forall|i: int| 0 <= i < entries.len() ==> (#[trigger] entries[i]).replace_email.len() > 0
    &&& forall|i: int, j: int|
        0 <= i < j < entries.len() ==> !key_matches(
            #[trigger] entries[i],
            entries[j].replace_name,
            #[trigger] entries[j].replace_email,
        )
}

/// `last_match` gives a matching entry, or shows that none matches, and no
/// later entry matches.
pub proof fn lemma_last_match(
    entries: Seq<EntryModel>,
    name: Option<Seq<char>>,
    email: Seq<char>,
    n: int,
)
    requires
        0 <= n <= entries.len(),
    ensures
        -1 <= last_match(entries, name, email, n) < n,
        last_match(entries, name, email, n) >= 0 ==> key_matches(
            entries[last_match(entries, name, email, n)],
            name,
            email,
        ),
        last_match(entries, name, email, n) < 0 ==> forall|i: int|
            0 <= i < n ==> !key_matches(#[trigger] entries[i], name, email),
        forall|i: int|
            last_match(entries, name, email, n) < i < n ==> !key_matches(
                #[trigger] entries[i],
                name,
                email,
            ),
    decreases n,
{
    if n > 0 {
        lemma_last_match(entries, name, email, n - 1);
    }
}

/// One stored rule.
pub struct Entry {
    real_name: Option<String>,
    real_email: Option<String>,
    replace_name: Option<Vec<char>>,
    replace_email: Vec<char>,
}

impl View for Entry {
    type V = EntryModel;

    closed spec fn view(&self) -> EntryModel {
        EntryModel {
            real_name: opt_view(self.real_name),
            real_email: opt_view(self.real_email),
            replace_name: opt_chars_view(self.replace_name),
            replace_email: self.replace_email@,
        }
    }
}

impl Entry {
    pub(crate) fn from_parts(
        real_name: Option<String>,
        real_email: Option<String>,
        replace_name: Option<Vec<char>>,
        replace_email: Vec<char>,
    ) -> (r: Entry)
        ensures
            r@ == (EntryModel {
                real_name: opt_view(real_name),
                real_email: opt_view(real_email),
                replace_name: opt_chars_view(replace_name),
                replace_email: replace_email@,
            }),
    {
        Entry { real_name, real_email, replace_name, replace_email }
    }

    fn matches_key(&self, name: &Option<Vec<char>>, email: &Vec<char>) -> (r: bool)
        ensures
            r == key_matches(self@, opt_chars_view(*name), email@),
    {
        let names_agree = match (&self.replace_name, name) {
            (Some(a), Some(b)) => eq_exact(a, b),
            (None, None) => true,
            _ => false,
        };
        names_agree && eq_folded(&self.replace_email, email)
    }
}

/// A set of rules that map recorded names and emails to real ones.
pub struct Mailmap {
    entries: Vec<Entry>,
}

impl View for Mailmap {
    type V = Seq<EntryModel>;

    closed spec fn view(&self) -> Seq<EntryModel> {
        self.entries@.map_values(|e: Entry| e@)
    }
}

fn text_opt(s: Option<&str>) -> (r: Option<String>)
    ensures
        opt_view(r) == opt_str_view(s),
{
    match s {
        Some(t) => Some(t.to_owned()),
        None => None,
    }
}

fn chars_opt(s: Option<&str>) -> (r: Option<Vec<char>>)
    ensures
        opt_chars_view(r) == opt_str_view(s),
{
    match s {
        Some(t) => Some(chars_of(t)),
        None => None,
    }
}

impl Mailmap {
    /// The rules are well formed: see `valid_entries`.
    pub open spec fn wf(&self) -> bool {
        valid_entries(self@)
    }

    /// An empty mailmap.
    pub fn new() -> (r: Result<Mailmap, Error>)
        ensures
            r is Ok,
            r->Ok_0.wf(),
            r->Ok_0@ == Seq::<EntryModel>::empty(),
    {
        let m = Mailmap { entries: Vec::new() };
        assert(m@ =~= Seq::<EntryModel>::empty());
        Ok(m)
    }

    /// A mailmap holding the rules of one mailmap text, added line by line.
    /// Fails only when the buffer is not UTF-8; lines that state no rule
    /// are skipped.
    pub fn from_buffer(buffer: &[u8]) -> (r: Result<Mailmap, Error>)
        ensures
            r is Ok <==> valid_utf8(buffer@),
            r is Err ==> r->Err_0 == Error::Parse,
            r is Ok ==> r->Ok_0.wf() && r->Ok_0@ == add_all(
                Seq::empty(),
                parse_entries(decode_utf8(buffer@), 0),
            ),
    {
        let text = match decode_text(buffer) {
            Some(s) => s,
            None => return Err(Error::Parse),
        };
        let chars = chars_of(text);
        let mut m = Mailmap { entries: Vec::new() };
        assert(m@ =~= Seq::<EntryModel>::empty());
        m.add_text(&chars);
        Ok(m)
    }

    /// A mailmap holding the rules of a repository's sources, in order,
    /// later sources replacing earlier rules with the same key. Absent
    /// sources and sources that are not UTF-8 are skipped; a source the
    /// repository failed to read fails the whole load.
    pub fn from_repository(repo: &Repository) -> (r: Result<Mailmap, Error>)
        ensures
            r is Ok <==> !repository_failed(repo),
            r is Err ==> r->Err_0 == Error::RepositoryAccess,
            r is Ok ==> r->Ok_0.wf() && r->Ok_0@ == repository_model(repo),
    {
        if matches!(repo.workdir, Source::Failed) || matches!(repo.blob, Source::Failed)
            || matches!(repo.file, Source::Failed) {
            return Err(Error::RepositoryAccess);
        }
        let mut m = Mailmap { entries: Vec::new() };
        assert(m@ =~= Seq::<EntryModel>::empty());
        m.add_source(&repo.workdir);
        m.add_source(&repo.blob);
        m.add_source(&repo.file);
        Ok(m)
    }

    fn add_source(&mut self, source: &Source)
        requires
            old(self).wf(),
        ensures
            final(self).wf(),
            final(self)@ == add_all(old(self)@, source_entries(source)),
    {
        if let Source::Contents(bytes) = source {
            if let Some(text) = decode_text(bytes.as_slice()) {
                let chars = chars_of(text);
                self.add_text(&chars);
                return;
            }
        }
        assert(source_entries(source).len() == 0);
    }

    /// Adds the rules of a mailmap text, in the order of its lines.
    pub(crate) fn add_text(&mut self, t: &Vec<char>)
        requires
            old(self).wf(),
        ensures
            final(self).wf(),
            final(self)@ == add_all(old(self)@, parse_entries(t@, 0)),
    {
        let n = t.len();
        let mut start: usize = 0;
        while start < n
            invariant
                self.wf(),
                start <= n == t.len(),
                add_all(self@, parse_entries(t@, start as int)) == add_all(
                    old(self)@,
                    parse_entries(t@, 0),
                ),
            decreases n - start,
        {
            let end = match find_char(t, '\n', start, n) {
                Some(k) => k,
                None => n,
            };
            let ghost rest = if end < n {
                parse_entries(t@, end + 1)
            } else {
                Seq::empty()
            };
            match parse_line_exec(t, start, end) {
                Some(e) => {
                    let ghost em = e@;
                    self.insert(e);
                    assert((seq![em] + rest).drop_first() =~= rest);
                },
                None => {},
            }
            assert(add_all(self@, rest) == add_all(old(self)@, parse_entries(t@, 0)));
            if end < n {
                start = end + 1;
            } else {
                start = n;
            }
        }
    }

    /// The number of rules held.
    pub fn len(&self) -> (r: usize)
        ensures
            r == self@.len(),
    {
        self.entries.len()
    }

    /// Index of the last entry with the given key.
    fn find_last(&self, name: &Option<Vec<char>>, email: &Vec<char>) -> (r: Option<usize>)
        ensures
            match r {
                Some(i) => i as int == last_match(
                    self@,
                    opt_chars_view(*name),
                    email@,
                    self@.len() as int,
                ),
                None => last_match(self@, opt_chars_view(*name), email@, self@.len() as int) < 0,
            },
            r is Some ==> r->Some_0 < self@.len(),
    {
        proof {
            lemma_last_match(self@, opt_chars_view(*name), email@, self@.len() as int);
        }
        let mut i: usize = self.entries.len();
        while i > 0
            invariant
                i <= self.entries.len(),
                last_match(self@, opt_chars_view(*name), email@, self@.len() as int) == last_match(
                    self@,
                    opt_chars_view(*name),
                    email@,
                    i as int,
                ),
            decreases i,
        {
            if self.entries[i - 1].matches_key(name, email) {
                return Some(i - 1);
            }
            i -= 1;
        }
        None
    }

    /// Adds a rule, replacing the one with the same key if there is one.
    /// An empty email to match on is refused.
    pub fn add_entry(
        &mut self,
        real_name: Option<&str>,
        real_email: Option<&str>,
        replace_name: Option<&str>,
        replace_email: &str,
    ) -> (r: Result<(), Error>)
        requires
            old(self).wf(),
        ensures
            final(self).wf(),
            replace_email@.len() == 0 <==> r == Err::<(), Error>(Error::InvalidArgument),
            replace_email@.len() == 0 ==> final(self)@ == old(self)@,
            replace_email@.len() > 0 ==> r is Ok && final(self)@ == add_model(
                old(self)@,
                EntryModel {
                    real_name: opt_str_view(real_name),
                    real_email: opt_str_view(real_email),
                    replace_name: opt_str_view(replace_name),
                    replace_email: replace_email@,
                },
            ),
    {
        let key_email = chars_of(replace_email);
        if key_email.len() == 0 {
            return Err(Error::InvalidArgument);
        }
        let entry = Entry {
            real_name: text_opt(real_name),
            real_email: text_opt(real_email),
            replace_name: chars_opt(replace_name),
            replace_email: key_email,
        };
        self.insert(entry);
        Ok(())
    }

    fn insert(&mut self, entry: Entry)
        requires
            old(self).wf(),
            entry@.replace_email.len() > 0,
        ensures
            final(self).wf(),
            final(self)@ == add_model(old(self)@, entry@),
    {
        let ghost e = entry@;
        let found = self.find_last(&entry.replace_name, &entry.replace_email);
        proof {
            lemma_add_valid(self@, e);
        }
        match found {
            Some(i) => {
                self.entries.set(i, entry);
            },
            None => {
                self.entries.push(entry);
            },
        }
        assert(self@ =~= add_model(old(self)@, e));
    }

    /// The real name and email for a recorded pair. Each is the query's own
    /// text unless the deciding rule gives a value for it.
    pub fn resolve<'a>(&'a self, name: &'a str, email: &'a str) -> (r: Result<(&'a str, &'a str), Error>)
        ensures
            match r {
                Ok(p) => (p.0@, p.1@) == resolve_model(self@, name@, email@),
                Err(_) => false,
            },
    {
        let qname = Some(chars_of(name));
        let qemail = chars_of(email);
        let found = match self.find_last(&qname, &qemail) {
            Some(i) => Some(i),
            None => self.find_last(&None, &qemail),
        };
        match found {
            None => Ok((name, email)),
            Some(i) => {
                let e = &self.entries[i];
                let rname: &'a str = match &e.real_name {
                    Some(n) => n.as_str(),
                    None => name,
                };
                let remail: &'a str = match &e.real_email {
                    Some(m) => m.as_str(),
                    None => email,
                };
                Ok((rname, remail))
            },
        }
    }
}

impl Mailmap {
    /// The signature with its identity resolved and its time kept. Fails
    /// when the resolved name or email cannot stand in a signature.
    pub fn resolve_signature(&self, sig: &Signature) -> (r: Result<Signature, Error>)
        ensures
            ({
                let (name, email) = resolve_model(self@, sig@.name, sig@.email);
                &&& r is Ok <==> signature_text(name) && signature_text(email)
                &&& r is Err ==> r->Err_0 == Error::InvalidSignature
                &&& r is Ok ==> r->Ok_0.wf() && r->Ok_0@ == (SignatureModel {
                    name,
                    email,
                    time: sig@.time,
                    offset: sig@.offset,
                })
            }),
    {
        let (name, email) = match self.resolve(sig.name(), sig.email()) {
            Ok(p) => p,
            Err(e) => return Err(e),
        };
        Signature::new(name, email, sig.time(), sig.offset())
    }
}

proof fn lemma_add_valid(entries: Seq<EntryModel>, e: EntryModel)
    requires
        valid_entries(entries),
        e.replace_email.len() > 0,
    ensures
        valid_entries(add_model(entries, e)),
{
    let n = entries.len() as int;
    lemma_last_match(entries, e.replace_name, e.replace_email, n);
    let k = last_match(entries, e.replace_name, e.replace_email, n);
    let s = add_model(entries, e);
    assert forall|i: int, j: int| 0 <= i < j < s.len() implies !key_matches(
        #[trigger] s[i],
        s[j].replace_name,
        #[trigger] s[j].replace_email,
    ) by {
        if k >= 0 {
            if i == k {
                assert(!key_matches(entries[j], e.replace_name, e.replace_email));
            } else if j == k {
                if key_matches(entries[i], e.replace_name, e.replace_email) {
                    assert(key_matches(entries[i], entries[k].replace_name, entries[k].replace_email)) by {
                        assert forall|x: int| 0 <= x < entries[i].replace_email.len() implies
                            #[trigger] crate::text::fold_code(entries[i].replace_email[x])
                            == crate::text::fold_code(entries[k].replace_email[x]) by {
                            assert(crate::text::fold_code(entries[k].replace_email[x])
                                == crate::text::fold_code(e.replace_email[x]));
                        }
                    }
                }
            }
        } else if j == n {
            assert(!key_matches(entries[i], e.replace_name, e.replace_email));
        }
    }
}

} // verus!
