//! The credential file format: parsing, host lookup, and the appended entry.
//!
//! A credential file is a sequence of whitespace-separated tokens forming
//! entries of the shape `machine <host> login <login> password <secret>`,
//! one block per host (a `default` block carries no host name).  The parser
//! below is the library's reading of that format; the functions that extend
//! a file never rewrite existing entries, they only compute a suffix to
//! append.

use vstd::prelude::*;

use crate::error::Error;
use crate::text::{push_char, str_eq};

verus! {

/// One parsed credential entry: an optional host name (`None` for a
/// `default` block) and the optional login and password seen for it.
#[derive(Debug, Clone)]
pub struct NetrcEntry {
    pub name: Option<String>,
    pub login: Option<String>,
    pub password: Option<String>,
}

/// The mathematical model of one entry.
pub ghost struct EntryModel {
    pub name: Option<Seq<char>>,
    pub login: Option<Seq<char>>,
    pub password: Option<Seq<char>>,
}

impl View for NetrcEntry {
    type V = EntryModel;

    open spec fn view(&self) -> EntryModel {
        EntryModel {
            name: self.name.deep_view(),
            login: self.login.deep_view(),
            password: self.password.deep_view(),
        }
    }
}

impl DeepView for NetrcEntry {
    type V = EntryModel;

    open spec fn deep_view(&self) -> EntryModel {
        self.view()
    }
}

/// The characters that separate tokens in a credential file.
pub open spec fn is_space_char(c: char) -> bool {
    c == ' ' || c == '\t' || c == '\n' || c == '\r'
}

/// A word that can stand as one token of the file: non-empty and free of
/// separators.
pub open spec fn is_word(s: Seq<char>) -> bool {
    s.len() > 0 && forall|i: int| 0 <= i < s.len() ==> !is_space_char(s[i])
}

/// Splits `s` into whitespace-separated tokens, carrying the token under
/// construction and the tokens already complete.
pub open spec fn tokens_from(s: Seq<char>, cur: Seq<char>, acc: Seq<Seq<char>>) -> Seq<Seq<char>>
    decreases s.len(),
{
    if s.len() == 0 {
        if cur.len() > 0 {
            acc.push(cur)
        } else {
            acc
        }
    } else if is_space_char(s[0]) {
        if cur.len() > 0 {
            tokens_from(s.skip(1), Seq::empty(), acc.push(cur))
        } else {
            tokens_from(s.skip(1), Seq::empty(), acc)
        }
    } else {
        tokens_from(s.skip(1), cur.push(s[0]), acc)
    }
}

/// The tokens of a credential file's text.
pub open spec fn spec_tokens(s: Seq<char>) -> Seq<Seq<char>> {
    tokens_from(s, Seq::empty(), Seq::empty())
}

/// `acc` with the login of its last entry replaced.
pub open spec fn set_login(acc: Seq<EntryModel>, v: Seq<char>) -> Seq<EntryModel> {
    acc.update(
        acc.len() - 1,
        EntryModel { login: Some(v), ..acc[acc.len() - 1] },
    )
}

/// `acc` with the password of its last entry replaced.
pub open spec fn set_password(acc: Seq<EntryModel>, v: Seq<char>) -> Seq<EntryModel> {
    acc.update(
        acc.len() - 1,
        EntryModel { password: Some(v), ..acc[acc.len() - 1] },
    )
}

/// Reads a token list as credential entries.  `machine` and `default` open
/// an entry; `login` and `password` fill the entry last opened; `account`
/// and `port` are accepted and ignored.  `None` is a malformed file: a
/// keyword without its value, a field before any entry, or an unknown
/// token.
pub open spec fn parse_from(toks: Seq<Seq<char>>, acc: Seq<EntryModel>) -> Option<Seq<EntryModel>>
    decreases toks.len(),
{
    if toks.len() == 0 {
        Some(acc)
    } else if toks[0] == "machine"@ {
        if toks.len() < 2 {
            None
        } else {
            parse_from(
                toks.skip(2),
                acc.push(EntryModel { name: Some(toks[1]), login: None, password: None }),
            )
        }
    } else if toks[0] == "default"@ {
        parse_from(toks.skip(1), acc.push(EntryModel { name: None, login: None, password: None }))
    } else if toks[0] == "login"@ {
        if toks.len() < 2 || acc.len() == 0 {
            None
        } else {
            parse_from(toks.skip(2), set_login(acc, toks[1]))
        }
    } else if toks[0] == "password"@ {
        if toks.len() < 2 || acc.len() == 0 {
            None
        } else {
            parse_from(toks.skip(2), set_password(acc, toks[1]))
        }
    } else if toks[0] == "account"@ || toks[0] == "port"@ {
        if toks.len() < 2 || acc.len() == 0 {
            None
        } else {
            parse_from(toks.skip(2), acc)
        }
    } else {
        None
    }
}

/// The entries of a credential file's text, or `None` if it is malformed.
pub open spec fn spec_entries(text: Seq<char>) -> Option<Seq<EntryModel>> {
    parse_from(spec_tokens(text), Seq::empty())
}

/// Whether some entry carries the given host name.
pub open spec fn spec_has_host(entries: Seq<EntryModel>, host: Seq<char>) -> bool {
    exists|i: int| 0 <= i < entries.len() && entries[i].name == Some(host)
}

/// The line appended for a new host: `machine <host> login <login> password
/// <secret>`, framed by blank lines.
pub open spec fn spec_append_line(host: Seq<char>, login: Seq<char>, password: Seq<char>) -> Seq<
    char,
> {
    "\nmachine "@ + host + " login "@ + login + " password "@ + password + "\n\n"@
}

/// Splits a credential file's text into its whitespace-separated tokens.
pub fn tokenize(s: &str) -> (toks: Vec<String>)
    ensures
        toks.deep_view() == spec_tokens(s@),
{
    let len = s.unicode_len();
    let mut toks: Vec<String> = Vec::new();
    let mut cur: String = String::new();
    let mut i: usize = 0;
    proof {
        assert(s@.skip(0) =~= s@);
        assert(toks.deep_view() =~= Seq::<Seq<char>>::empty());
    }
    while i < len
        invariant
            len == s@.len(),
            i <= len,
            tokens_from(s@.skip(i as int), cur@, toks.deep_view()) == spec_tokens(s@),
        decreases len - i,
    {
        let ghost pre_toks = toks.deep_view();
        let ghost cur_v = cur@;
        let ghost rest = s@.skip(i as int);
        proof {
            assert(rest.len() == len - i);
            assert(rest[0] == s@[i as int]);
            assert(rest.skip(1) =~= s@.skip(i as int + 1));
        }
        let c = s.get_char(i);
        if c == ' ' || c == '\t' || c == '\n' || c == '\r' {
            proof {
                assert(is_space_char(rest[0]));
            }
            if !cur.as_str().is_empty() {
                toks.push(cur);
                cur = String::new();
                proof {
                    assert(toks.deep_view() =~= pre_toks.push(cur_v));
                    assert(tokens_from(rest, cur_v, pre_toks) == tokens_from(
                        rest.skip(1),
                        Seq::<char>::empty(),
                        pre_toks.push(cur_v),
                    ));
                }
            } else {
                proof {
                    assert(cur_v =~= Seq::<char>::empty());
                    assert(tokens_from(rest, cur_v, pre_toks) == tokens_from(
                        rest.skip(1),
                        Seq::<char>::empty(),
                        pre_toks,
                    ));
                }
            }
        } else {
            push_char(&mut cur, c);
            proof {
                assert(tokens_from(rest, cur_v, pre_toks) == tokens_from(
                    rest.skip(1),
                    cur_v.push(rest[0]),
                    pre_toks,
                ));
            }
        }
        i = i + 1;
    }
    let ghost pre_toks = toks.deep_view();
    let ghost cur_v = cur@;
    if !cur.as_str().is_empty() {
        toks.push(cur);
        proof {
            assert(toks.deep_view() =~= pre_toks.push(cur_v));
        }
    }
    proof {
        assert(s@.skip(len as int) =~= Seq::<char>::empty());
    }
    toks
}

/// The error returned for a credential file the parser cannot read.
fn malformed_error() -> (e: Error)
    ensures
        e matches Error::Netrc { message } && message@ == "malformed credential file"@,
{
    Error::Netrc { message: String::from_str("malformed credential file") }
}

/// Reads a token list as credential entries, as `parse_from` describes.
pub fn parse_entries(toks: &Vec<String>) -> (r: Result<Vec<NetrcEntry>, Error>)
    ensures
        match r {
            Ok(entries) => parse_from(toks.deep_view(), Seq::empty()) == Some(entries.deep_view()),
            Err(e) => parse_from(toks.deep_view(), Seq::empty()) is None && (e matches Error::Netrc {
                message,
            } && message@ == "malformed credential file"@),
        },
{
    let ghost tv = toks.deep_view();
    let len = toks.len();
    let mut entries: Vec<NetrcEntry> = Vec::new();
    let mut i: usize = 0;
    proof {
        assert(tv.skip(0) =~= tv);
        assert(entries.deep_view() =~= Seq::<EntryModel>::empty());
    }
    while i < len
        invariant
            tv == toks.deep_view(),
            len == toks@.len(),
            i <= len,
            parse_from(tv.skip(i as int), entries.deep_view()) == parse_from(tv, Seq::empty()),
        decreases len - i,
    {
        let ghost rest = tv.skip(i as int);
        let ghost pre = entries.deep_view();
        proof {
            assert(rest.len() == len - i);
            assert(rest[0] == tv[i as int]);
            assert(rest.skip(1) =~= tv.skip(i as int + 1));
            if i + 2 <= len {
                assert(rest.skip(2) =~= tv.skip(i as int + 2));
            }
            if i + 1 < len {
                assert(rest[1] == tv[i as int + 1]);
            }
        }
        let t = &toks[i];
        if str_eq(t.as_str(), "machine") {
            if i + 1 >= len {
                return Err(malformed_error());
            }
            let value = toks[i + 1].clone();
            entries.push(NetrcEntry { name: Some(value), login: None, password: None });
            proof {
                assert(entries.deep_view() =~= pre.push(
                    EntryModel { name: Some(rest[1]), login: None, password: None },
                ));
            }
            i = i + 2;
        } else if str_eq(t.as_str(), "default") {
            entries.push(NetrcEntry { name: None, login: None, password: None });
            proof {
                assert(entries.deep_view() =~= pre.push(
                    EntryModel { name: None, login: None, password: None },
                ));
            }
            i = i + 1;
        } else if str_eq(t.as_str(), "login") {
            if i + 1 >= len || entries.len() == 0 {
                return Err(malformed_error());
            }
            let value = toks[i + 1].clone();
            match entries.pop() {
                Some(last) => {
                    entries.push(
                        NetrcEntry { name: last.name, login: Some(value), password: last.password },
                    );
                },
                None => {
                    return Err(malformed_error());
                },
            }
            proof {
                assert(entries.deep_view() =~= set_login(pre, rest[1]));
            }
            i = i + 2;
        } else if str_eq(t.as_str(), "password") {
            if i + 1 >= len || entries.len() == 0 {
                return Err(malformed_error());
            }
            let value = toks[i + 1].clone();
            match entries.pop() {
                Some(last) => {
                    entries.push(
                        NetrcEntry { name: last.name, login: last.login, password: Some(value) },
                    );
                },
                None => {
                    return Err(malformed_error());
                },
            }
            proof {
                assert(entries.deep_view() =~= set_password(pre, rest[1]));
            }
            i = i + 2;
        } else if str_eq(t.as_str(), "account") || str_eq(t.as_str(), "port") {
            if i + 1 >= len || entries.len() == 0 {
                return Err(malformed_error());
            }
            i = i + 2;
        } else {
            return Err(malformed_error());
        }
    }
    proof {
        assert(tv.skip(len as int) =~= Seq::<Seq<char>>::empty());
    }
    Ok(entries)
}

/// Parses a credential file's full text into its entries.
pub fn parse_netrc(text: &str) -> (r: Result<Vec<NetrcEntry>, Error>)
    ensures
        match r {
            Ok(entries) => spec_entries(text@) == Some(entries.deep_view()),
            Err(e) => spec_entries(text@) is None && (e matches Error::Netrc { message }
                && message@ == "malformed credential file"@),
        },
{
    let toks = tokenize(text);
    parse_entries(&toks)
}

/// Whether the parsed file already has an entry for the given host.
pub fn has_host(entries: &Vec<NetrcEntry>, host: &str) -> (r: bool)
    ensures
        r == spec_has_host(entries.deep_view(), host@),
{
    let len = entries.len();
    let mut i: usize = 0;
    while i < len
        invariant
            len == entries@.len(),
            i <= len,
            forall|j: int| 0 <= j < i ==> entries.deep_view()[j].name != Some(host@),
        decreases len - i,
    {
        match &entries[i].name {
            Some(n) => {
                if str_eq(n.as_str(), host) {
                    proof {
                        assert(entries.deep_view()[i as int].name == Some(host@));
                    }
                    return true;
                }
            },
            None => {},
        }
        i = i + 1;
    }
    false
}

/// Scanning a word followed by more input: the word closes at the
/// separator that follows it.
proof fn lemma_tokens_word_then(w: Seq<char>, rest: Seq<char>, cur: Seq<char>, acc: Seq<Seq<char>>)
    requires
        forall|i: int| 0 <= i < w.len() ==> !is_space_char(w[i]),
        rest.len() > 0 ==> is_space_char(rest[0]),
        cur.len() + w.len() > 0,
    ensures
        tokens_from(w + rest, cur, acc) == tokens_from(rest, Seq::empty(), acc.push(cur + w)),
    decreases w.len(),
{
    if w.len() == 0 {
        assert(w + rest =~= rest);
        assert(cur + w =~= cur);
        if rest.len() == 0 {
            assert(tokens_from(rest, Seq::<char>::empty(), acc.push(cur)) == acc.push(cur));
        }
    } else {
        let t = w + rest;
        assert(t[0] == w[0]);
        assert(t.skip(1) =~= w.skip(1) + rest);
        lemma_tokens_word_then(w.skip(1), rest, cur.push(w[0]), acc);
        assert(cur.push(w[0]) + w.skip(1) =~= cur + w);
    }
}

/// Scanning separators: they close nothing and add nothing.
proof fn lemma_tokens_spaces_then(sp: Seq<char>, rest: Seq<char>, acc: Seq<Seq<char>>)
    requires
        forall|i: int| 0 <= i < sp.len() ==> is_space_char(sp[i]),
    ensures
        tokens_from(sp + rest, Seq::empty(), acc) == tokens_from(rest, Seq::empty(), acc),
    decreases sp.len(),
{
    if sp.len() == 0 {
        assert(sp + rest =~= rest);
    } else {
        let t = sp + rest;
        assert(t[0] == sp[0]);
        assert(t.skip(1) =~= sp.skip(1) + rest);
        lemma_tokens_spaces_then(sp.skip(1), rest, acc);
    }
}

/// One separator run, one word, and the rest: the word becomes the next
/// token.
proof fn lemma_tokens_sep_word(sp: Seq<char>, w: Seq<char>, rest: Seq<char>, acc: Seq<Seq<char>>)
    requires
        forall|i: int| 0 <= i < sp.len() ==> is_space_char(sp[i]),
        is_word(w),
        rest.len() > 0 ==> is_space_char(rest[0]),
    ensures
        tokens_from(sp + (w + rest), Seq::empty(), acc) == tokens_from(
            rest,
            Seq::empty(),
            acc.push(w),
        ),
{
    lemma_tokens_spaces_then(sp, w + rest, acc);
    lemma_tokens_word_then(w, rest, Seq::empty(), acc);
    assert(Seq::<char>::empty() + w =~= w);
}

/// Tokenizing split at a separator: the left part's tokens come first.
proof fn lemma_tokens_concat(s1: Seq<char>, s2: Seq<char>, cur: Seq<char>, acc: Seq<Seq<char>>)
    requires
        s2.len() > 0,
        is_space_char(s2[0]),
    ensures
        tokens_from(s1 + s2, cur, acc) == tokens_from(
            s2,
            Seq::empty(),
            tokens_from(s1, cur, acc),
        ),
    decreases s1.len(),
{
    if s1.len() == 0 {
        assert(s1 + s2 =~= s2);
    } else {
        let t = s1 + s2;
        assert(t[0] == s1[0]);
        assert(t.skip(1) =~= s1.skip(1) + s2);
        if is_space_char(s1[0]) {
            if cur.len() > 0 {
                lemma_tokens_concat(s1.skip(1), s2, Seq::empty(), acc.push(cur));
            } else {
                lemma_tokens_concat(s1.skip(1), s2, Seq::empty(), acc);
            }
        } else {
            lemma_tokens_concat(s1.skip(1), s2, cur.push(s1[0]), acc);
        }
    }
}

/// The tokens the appended line contributes: exactly the six of one entry.
proof fn lemma_append_line_tokens(
    text: Seq<char>,
    host: Seq<char>,
    login: Seq<char>,
    password: Seq<char>,
)
    requires
        is_word(host),
        is_word(login),
        is_word(password),
    ensures
        spec_tokens(text + spec_append_line(host, login, password)) == spec_tokens(text) + seq![
            "machine"@,
            host,
            "login"@,
            login,
            "password"@,
            password,
        ],
{
    let line = spec_append_line(host, login, password);
    reveal_strlit("\nmachine ");
    reveal_strlit(" login ");
    reveal_strlit(" password ");
    reveal_strlit("\n\n");
    reveal_strlit("\n");
    reveal_strlit(" ");
    reveal_strlit("machine");
    reveal_strlit("login");
    reveal_strlit("password");
    let sp: Seq<char> = " "@;
    let nl: Seq<char> = "\n"@;
    let tail: Seq<char> = "\n\n"@;
    let r5 = tail;
    let r4 = sp + (password + r5);
    let r3 = sp + ("password"@ + r4);
    let r2 = sp + (login + r3);
    let r1 = sp + ("login"@ + r2);
    let r0 = sp + (host + r1);
    let nested = nl + ("machine"@ + r0);
    assert(line =~= nested);
    assert(line[0] == '\n');
    lemma_tokens_concat(text, line, Seq::empty(), Seq::empty());
    let t0 = spec_tokens(text);
    assert(is_word("machine"@));
    assert(is_word("login"@));
    assert(is_word("password"@));
    lemma_tokens_sep_word(nl, "machine"@, r0, t0);
    lemma_tokens_sep_word(sp, host, r1, t0.push("machine"@));
    lemma_tokens_sep_word(sp, "login"@, r2, t0.push("machine"@).push(host));
    lemma_tokens_sep_word(sp, login, r3, t0.push("machine"@).push(host).push("login"@));
    lemma_tokens_sep_word(
        sp,
        "password"@,
        r4,
        t0.push("machine"@).push(host).push("login"@).push(login),
    );
    lemma_tokens_sep_word(
        sp,
        password,
        r5,
        t0.push("machine"@).push(host).push("login"@).push(login).push("password"@),
    );
    let t6 = t0.push("machine"@).push(host).push("login"@).push(login).push("password"@).push(
        password,
    );
    lemma_tokens_spaces_then(tail, Seq::empty(), t6);
    assert(tail + Seq::<char>::empty() =~= tail);
    assert(tokens_from(Seq::<char>::empty(), Seq::<char>::empty(), t6) == t6);
    assert(t6 =~= t0 + seq!["machine"@, host, "login"@, login, "password"@, password]);
}

/// Parsing split: what parses on its own continues over appended tokens.
proof fn lemma_parse_append(
    toks: Seq<Seq<char>>,
    extra: Seq<Seq<char>>,
    acc: Seq<EntryModel>,
)
    requires
        parse_from(toks, acc) is Some,
    ensures
        parse_from(toks + extra, acc) == parse_from(extra, parse_from(toks, acc)->Some_0),
    decreases toks.len(),
{
    if toks.len() == 0 {
        assert(toks + extra =~= extra);
    } else {
        let t = toks + extra;
        assert(t[0] == toks[0]);
        if toks.len() >= 2 {
            assert(t[1] == toks[1]);
            assert(t.skip(2) =~= toks.skip(2) + extra);
        }
        assert(t.skip(1) =~= toks.skip(1) + extra);
        if toks[0] == "machine"@ {
            lemma_parse_append(
                toks.skip(2),
                extra,
                acc.push(EntryModel { name: Some(toks[1]), login: None, password: None }),
            );
        } else if toks[0] == "default"@ {
            lemma_parse_append(
                toks.skip(1),
                extra,
                acc.push(EntryModel { name: None, login: None, password: None }),
            );
        } else if toks[0] == "login"@ {
            lemma_parse_append(toks.skip(2), extra, set_login(acc, toks[1]));
        } else if toks[0] == "password"@ {
            lemma_parse_append(toks.skip(2), extra, set_password(acc, toks[1]));
        } else {
            lemma_parse_append(toks.skip(2), extra, acc);
        }
    }
}

/// Extending a well-formed credential file with the planned line yields the
/// old entries, byte-for-byte untouched, plus exactly the one new entry —
/// so a second run finds the host and plans no write.
pub proof fn lemma_propagation_idempotent(
    text: Seq<char>,
    host: Seq<char>,
    login: Seq<char>,
    password: Seq<char>,
)
    requires
        spec_entries(text) is Some,
        is_word(host),
        is_word(login),
        is_word(password),
    ensures
        ({
            let extended = text + spec_append_line(host, login, password);
            &&& extended.take(text.len() as int) == text
            &&& spec_entries(extended) == Some(
                spec_entries(text)->Some_0.push(
                    EntryModel { name: Some(host), login: Some(login), password: Some(password) },
                ),
            )
            &&& spec_has_host(spec_entries(extended)->Some_0, host)
        }),
{
    let line = spec_append_line(host, login, password);
    let extended = text + line;
    assert(extended.take(text.len() as int) =~= text);
    lemma_append_line_tokens(text, host, login, password);
    let extra = seq!["machine"@, host, "login"@, login, "password"@, password];
    lemma_parse_append(spec_tokens(text), extra, Seq::empty());
    let entries = spec_entries(text)->Some_0;
    reveal_strlit("machine");
    reveal_strlit("default");
    reveal_strlit("login");
    reveal_strlit("password");
    reveal_strlit("account");
    reveal_strlit("port");
    assert("machine"@ != "default"@) by {
        assert("machine"@[0] == 'm');
        assert("default"@[0] == 'd');
    }
    assert("login"@ != "machine"@ && "login"@ != "default"@) by {
        assert("login"@.len() == 5);
        assert("machine"@.len() == 7);
        assert("default"@.len() == 7);
    }
    assert("password"@ != "machine"@ && "password"@ != "default"@ && "password"@ != "login"@) by {
        assert("password"@.len() == 8);
        assert("machine"@.len() == 7);
        assert("default"@.len() == 7);
        assert("login"@.len() == 5);
    }
    let e1 = entries.push(EntryModel { name: Some(host), login: None, password: None });
    let e2 = set_login(e1, login);
    let e3 = set_password(e2, password);
    let x2 = seq!["login"@, login, "password"@, password];
    let x4 = seq!["password"@, password];
    let x6 = Seq::<Seq<char>>::empty();
    assert(extra.skip(2) =~= x2);
    assert(x2.skip(2) =~= x4);
    assert(x4.skip(2) =~= x6);
    assert(e1.len() > 0 && e2.len() > 0);
    assert(parse_from(extra, entries) == parse_from(x2, e1));
    assert(parse_from(x2, e1) == parse_from(x4, e2));
    assert(parse_from(x4, e2) == parse_from(x6, e3));
    assert(parse_from(x6, e3) == Some(e3));
    assert(parse_from(extra, entries) == Some(e3));
    assert(e3 =~= entries.push(
        EntryModel { name: Some(host), login: Some(login), password: Some(password) },
    ));
    let final_entries = spec_entries(extended)->Some_0;
    assert(final_entries[final_entries.len() - 1].name == Some(host));
}

/// Builds the line appended for a new host, exactly as `spec_append_line`
/// lays it out.
pub fn append_line(host: &str, login: &str, password: &str) -> (r: String)
    ensures
        r@ == spec_append_line(host@, login@, password@),
{
    let mut r = String::from_str("\nmachine ");
    r.append(host);
    r.append(" login ");
    r.append(login);
    r.append(" password ");
    r.append(password);
    r.append("\n\n");
    proof {
        assert(r@ =~= spec_append_line(host@, login@, password@));
    }
    r
}

} // verus!
