//! The wire format of the two servers' JSON replies, read as flat objects
//! with string fields.
//!
//! Both the metadata server's project record and the cache server's
//! structured error are JSON objects whose fields are strings.  The reader
//! below covers exactly that shape: an object of string keys and string
//! values, with the common single-character escapes; anything else is
//! rejected, and the caller treats the body as undecodable.

use vstd::prelude::*;

use crate::text::{push_char, str_eq};

verus! {

/// One token of a JSON object body.
#[derive(Debug, Clone)]
pub enum JsonToken {
    LBrace,
    RBrace,
    Colon,
    Comma,
    Str { text: String },
}

/// The mathematical model of one token.
pub ghost enum JsonTokenModel {
    LBrace,
    RBrace,
    Colon,
    Comma,
    Str { text: Seq<char> },
}

impl View for JsonToken {
    type V = JsonTokenModel;

    open spec fn view(&self) -> JsonTokenModel {
        match self {
            JsonToken::LBrace => JsonTokenModel::LBrace,
            JsonToken::RBrace => JsonTokenModel::RBrace,
            JsonToken::Colon => JsonTokenModel::Colon,
            JsonToken::Comma => JsonTokenModel::Comma,
            JsonToken::Str { text } => JsonTokenModel::Str { text: text@ },
        }
    }
}

impl DeepView for JsonToken {
    type V = JsonTokenModel;

    open spec fn deep_view(&self) -> JsonTokenModel {
        self.view()
    }
}

/// Whitespace between tokens.
pub open spec fn is_json_ws(c: char) -> bool {
    c == ' ' || c == '\t' || c == '\n' || c == '\r'
}

/// What a backslash escape inside a string stands for.
pub open spec fn spec_unescape(c: char) -> Option<char> {
    if c == '"' {
        Some('"')
    } else if c == '\\' {
        Some('\\')
    } else if c == '/' {
        Some('/')
    } else if c == 'n' {
        Some('\n')
    } else if c == 't' {
        Some('\t')
    } else if c == 'r' {
        Some('\r')
    } else if c == 'b' {
        Some('\u{8}')
    } else if c == 'f' {
        Some('\u{c}')
    } else {
        None
    }
}

/// Scans token text outside a string literal.
pub open spec fn jtokens_from(s: Seq<char>, acc: Seq<JsonTokenModel>) -> Option<
    Seq<JsonTokenModel>,
>
    decreases s.len(),
{
    if s.len() == 0 {
        Some(acc)
    } else if is_json_ws(s[0]) {
        jtokens_from(s.skip(1), acc)
    } else if s[0] == '{' {
        jtokens_from(s.skip(1), acc.push(JsonTokenModel::LBrace))
    } else if s[0] == '}' {
        jtokens_from(s.skip(1), acc.push(JsonTokenModel::RBrace))
    } else if s[0] == ':' {
        jtokens_from(s.skip(1), acc.push(JsonTokenModel::Colon))
    } else if s[0] == ',' {
        jtokens_from(s.skip(1), acc.push(JsonTokenModel::Comma))
    } else if s[0] == '"' {
        jstring_from(s.skip(1), Seq::empty(), acc)
    } else {
        None
    }
}

/// Scans the remainder of a string literal, the opening quote consumed.
pub open spec fn jstring_from(s: Seq<char>, cur: Seq<char>, acc: Seq<JsonTokenModel>) -> Option<
    Seq<JsonTokenModel>,
>
    decreases s.len(),
{
    if s.len() == 0 {
        None
    } else if s[0] == '"' {
        jtokens_from(s.skip(1), acc.push(JsonTokenModel::Str { text: cur }))
    } else if s[0] == '\\' {
        if s.len() < 2 {
            None
        } else {
            match spec_unescape(s[1]) {
                Some(c) => jstring_from(s.skip(2), cur.push(c), acc),
                None => None,
            }
        }
    } else {
        jstring_from(s.skip(1), cur.push(s[0]), acc)
    }
}

/// The tokens of a JSON body, or `None` where it leaves this format.
pub open spec fn spec_json_tokens(s: Seq<char>) -> Option<Seq<JsonTokenModel>> {
    jtokens_from(s, Seq::empty())
}

/// Reads `key : value` members up to the closing brace.
pub open spec fn jparse_members(
    toks: Seq<JsonTokenModel>,
    acc: Seq<(Seq<char>, Seq<char>)>,
) -> Option<Seq<(Seq<char>, Seq<char>)>>
    decreases toks.len(),
{
    if toks.len() < 4 {
        None
    } else {
        match toks[0] {
            JsonTokenModel::Str { text: key } => match toks[1] {
                JsonTokenModel::Colon => match toks[2] {
                    JsonTokenModel::Str { text: value } => match toks[3] {
                        JsonTokenModel::RBrace => if toks.len() == 4 {
                            Some(acc.push((key, value)))
                        } else {
                            None
                        },
                        JsonTokenModel::Comma => jparse_members(toks.skip(4), acc.push((key, value))),
                        _ => None,
                    },
                    _ => None,
                },
                _ => None,
            },
            _ => None,
        }
    }
}

/// Reads a whole token list as one object of string fields.
pub open spec fn jparse_object(toks: Seq<JsonTokenModel>) -> Option<Seq<(Seq<char>, Seq<char>)>> {
    if toks.len() == 0 {
        None
    } else if toks[0] != JsonTokenModel::LBrace {
        None
    } else if toks.len() == 2 && toks[1] == JsonTokenModel::RBrace {
        Some(Seq::empty())
    } else {
        jparse_members(toks.skip(1), Seq::empty())
    }
}

/// The fields of a JSON body that is one flat object of strings.
pub open spec fn spec_json_object(s: Seq<char>) -> Option<Seq<(Seq<char>, Seq<char>)>> {
    match spec_json_tokens(s) {
        Some(toks) => jparse_object(toks),
        None => None,
    }
}

/// The value under the first occurrence of `key`.
pub open spec fn spec_lookup(pairs: Seq<(Seq<char>, Seq<char>)>, key: Seq<char>) -> Option<
    Seq<char>,
>
    decreases pairs.len(),
{
    if pairs.len() == 0 {
        None
    } else if pairs[0].0 == key {
        Some(pairs[0].1)
    } else {
        spec_lookup(pairs.skip(1), key)
    }
}

/// Resolves one backslash escape.
pub fn unescape_char(c: char) -> (r: Option<char>)
    ensures
        r == spec_unescape(c),
{
    match c {
        '"' => Some('"'),
        '\\' => Some('\\'),
        '/' => Some('/'),
        'n' => Some('\n'),
        't' => Some('\t'),
        'r' => Some('\r'),
        'b' => Some('\u{8}'),
        'f' => Some('\u{c}'),
        _ => None,
    }
}

/// Splits a JSON body into tokens, as `spec_json_tokens` describes.
pub fn json_tokens(s: &str) -> (r: Option<Vec<JsonToken>>)
    ensures
        match r {
            Some(toks) => spec_json_tokens(s@) == Some(toks.deep_view()),
            None => spec_json_tokens(s@) is None,
        },
{
    let len = s.unicode_len();
    let mut toks: Vec<JsonToken> = Vec::new();
    let mut cur: String = String::new();
    let mut in_str: bool = false;
    let mut i: usize = 0;
    proof {
        assert(s@.skip(0) =~= s@);
        assert(toks.deep_view() =~= Seq::<JsonTokenModel>::empty());
    }
    while i < len
        invariant
            len == s@.len(),
            i <= len,
            !in_str ==> cur@ == Seq::<char>::empty(),
            !in_str ==> jtokens_from(s@.skip(i as int), toks.deep_view()) == spec_json_tokens(s@),
            in_str ==> jstring_from(s@.skip(i as int), cur@, toks.deep_view()) == spec_json_tokens(
                s@,
            ),
        decreases len - i,
    {
        let ghost pre_toks = toks.deep_view();
        let ghost cur_v = cur@;
        let ghost rest = s@.skip(i as int);
        proof {
            assert(rest.len() == len - i);
            assert(rest[0] == s@[i as int]);
            assert(rest.skip(1) =~= s@.skip(i as int + 1));
        }
        let c = s.get_char(i);
        if in_str {
            if c == '"' {
                toks.push(JsonToken::Str { text: cur });
                cur = String::new();
                in_str = false;
                proof {
                    assert(toks.deep_view() =~= pre_toks.push(
                        JsonTokenModel::Str { text: cur_v },
                    ));
                }
                i = i + 1;
            } else if c == '\\' {
                if i + 1 >= len {
                    return None;
                }
                proof {
                    assert(rest[1] == s@[i as int + 1]);
                    assert(rest.skip(2) =~= s@.skip(i as int + 2));
                }
                let c2 = s.get_char(i + 1);
                match unescape_char(c2) {
                    Some(u) => {
                        push_char(&mut cur, u);
                        i = i + 2;
                    },
                    None => {
                        return None;
                    },
                }
            } else {
                push_char(&mut cur, c);
                i = i + 1;
            }
        } else {
            if c == ' ' || c == '\t' || c == '\n' || c == '\r' {
                i = i + 1;
            } else if c == '{' {
                toks.push(JsonToken::LBrace);
                proof {
                    assert(toks.deep_view() =~= pre_toks.push(JsonTokenModel::LBrace));
                }
                i = i + 1;
            } else if c == '}' {
                toks.push(JsonToken::RBrace);
                proof {
                    assert(toks.deep_view() =~= pre_toks.push(JsonTokenModel::RBrace));
                }
                i = i + 1;
            } else if c == ':' {
                toks.push(JsonToken::Colon);
                proof {
                    assert(toks.deep_view() =~= pre_toks.push(JsonTokenModel::Colon));
                }
                i = i + 1;
            } else if c == ',' {
                toks.push(JsonToken::Comma);
                proof {
                    assert(toks.deep_view() =~= pre_toks.push(JsonTokenModel::Comma));
                }
                i = i + 1;
            } else if c == '"' {
                in_str = true;
                proof {
                    assert(cur@ =~= Seq::<char>::empty());
                }
                i = i + 1;
            } else {
                return None;
            }
        }
    }
    if in_str {
        proof {
            assert(s@.skip(len as int) =~= Seq::<char>::empty());
        }
        return None;
    }
    proof {
        assert(s@.skip(len as int) =~= Seq::<char>::empty());
    }
    Some(toks)
}

/// One decoded string field of an object.
#[derive(Debug, Clone)]
pub struct JsonField {
    pub key: String,
    pub value: String,
}

impl View for JsonField {
    type V = (Seq<char>, Seq<char>);

    open spec fn view(&self) -> (Seq<char>, Seq<char>) {
        (self.key@, self.value@)
    }
}

impl DeepView for JsonField {
    type V = (Seq<char>, Seq<char>);

    open spec fn deep_view(&self) -> (Seq<char>, Seq<char>) {
        self.view()
    }
}

/// Reads a token list as one object, as `jparse_object` describes.
pub fn parse_object(toks: &Vec<JsonToken>) -> (r: Option<Vec<JsonField>>)
    ensures
        match r {
            Some(fields) => jparse_object(toks.deep_view()) == Some(fields.deep_view()),
            None => jparse_object(toks.deep_view()) is None,
        },
{
    let ghost tv = toks.deep_view();
    let len = toks.len();
    if len == 0 {
        return None;
    }
    match &toks[0] {
        JsonToken::LBrace => {},
        _ => {
            return None;
        },
    }
    if len == 2 {
        match &toks[1] {
            JsonToken::RBrace => {
                let fields: Vec<JsonField> = Vec::new();
                proof {
                    assert(fields.deep_view() =~= Seq::<(Seq<char>, Seq<char>)>::empty());
                }
                return Some(fields);
            },
            _ => {},
        }
    }
    let mut fields: Vec<JsonField> = Vec::new();
    let mut i: usize = 1;
    proof {
        assert(tv.skip(1).skip(0) =~= tv.skip(1));
        assert(fields.deep_view() =~= Seq::<(Seq<char>, Seq<char>)>::empty());
        assert(jparse_object(tv) == jparse_members(tv.skip(1), Seq::empty()));
    }
    loop
        invariant
            tv == toks.deep_view(),
            len == toks@.len(),
            1 <= i <= len,
            jparse_members(tv.skip(i as int), fields.deep_view()) == jparse_object(tv),
        decreases len - i,
    {
        let ghost rest = tv.skip(i as int);
        let ghost pre = fields.deep_view();
        proof {
            assert(rest.len() == len - i);
            if i + 4 <= len {
                assert(rest[0] == tv[i as int]);
                assert(rest[1] == tv[i as int + 1]);
                assert(rest[2] == tv[i as int + 2]);
                assert(rest[3] == tv[i as int + 3]);
                assert(rest.skip(4) =~= tv.skip(i as int + 4));
            }
        }
        if len - i < 4 {
            return None;
        }
        let key: String = match &toks[i] {
            JsonToken::Str { text } => text.clone(),
            _ => {
                return None;
            },
        };
        match &toks[i + 1] {
            JsonToken::Colon => {},
            _ => {
                return None;
            },
        }
        let value: String = match &toks[i + 2] {
            JsonToken::Str { text } => text.clone(),
            _ => {
                return None;
            },
        };
        fields.push(JsonField { key, value });
        proof {
            assert(fields.deep_view() =~= pre.push((rest[0]->text, rest[2]->text)));
        }
        match &toks[i + 3] {
            JsonToken::RBrace => {
                if i + 4 == len {
                    return Some(fields);
                } else {
                    return None;
                }
            },
            JsonToken::Comma => {
                i = i + 4;
            },
            _ => {
                return None;
            },
        }
    }
}

/// Looks a key up among decoded fields, as `spec_lookup` describes.
pub fn lookup_field(fields: &Vec<JsonField>, key: &str) -> (r: Option<String>)
    ensures
        match r {
            Some(v) => spec_lookup(fields.deep_view(), key@) == Some(v@),
            None => spec_lookup(fields.deep_view(), key@) is None,
        },
{
    let ghost fv = fields.deep_view();
    let len = fields.len();
    let mut i: usize = 0;
    proof {
        assert(fv.skip(0) =~= fv);
    }
    while i < len
        invariant
            fv == fields.deep_view(),
            len == fields@.len(),
            i <= len,
            spec_lookup(fv.skip(i as int), key@) == spec_lookup(fv, key@),
        decreases len - i,
    {
        let ghost rest = fv.skip(i as int);
        proof {
            assert(rest[0] == fv[i as int]);
            assert(rest.skip(1) =~= fv.skip(i as int + 1));
        }
        if str_eq(fields[i].key.as_str(), key) {
            return Some(fields[i].value.clone());
        }
        i = i + 1;
    }
    proof {
        assert(fv.skip(len as int) =~= Seq::<(Seq<char>, Seq<char>)>::empty());
    }
    None
}

/// Decodes a body that is one flat object of string fields, as
/// `spec_json_object` describes.
pub fn parse_json_object(s: &str) -> (r: Option<Vec<JsonField>>)
    ensures
        match r {
            Some(fields) => spec_json_object(s@) == Some(fields.deep_view()),
            None => spec_json_object(s@) is None,
        },
{
    match json_tokens(s) {
        Some(toks) => parse_object(&toks),
        None => None,
    }
}

} // verus!
