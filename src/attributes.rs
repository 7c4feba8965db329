//! The grammar of the fixture attribute:
//! `migrations = ["./migrations", "./seed.sql"], sql = "INSERT ..."`.
//!
//! The attribute arrives as a sequence of tokens; a bracketed group is one
//! token that holds the tokens between its brackets. Decoding what a string
//! literal denotes (escapes, raw strings) is left to `syn`.
use vstd::prelude::*;

verus! {

/// A token between the brackets of the `migrations` list.
#[derive(Debug)]
pub enum ListToken {
    /// A literal, in its source form (`"./migrations"`).
    Literal(String),
    Comma,
    Other,
}

/// A token of the attribute.
#[derive(Debug)]
pub enum AttrToken {
    Ident(String),
    Eq,
    Comma,
    /// A literal, in its source form.
    Literal(String),
    /// A group delimited by `[` and `]`, with the tokens inside it.
    Bracketed(Vec<ListToken>),
    Other,
}

/// The parsed attribute: the ordered migration sources, and an optional raw
/// SQL script applied after all of them.
#[derive(Debug)]
pub struct CiterneAttributes {
    pub migrations: Vec<String>,
    pub sql: Option<String>,
}

#[derive(Debug)]
pub enum AttrError {
    /// An attribute name is not followed by `=`.
    ExpectedEq,
    /// `migrations =` is not followed by a bracketed list.
    ExpectedBracket,
    /// `sql =` is not followed by a string literal.
    ExpectedString,
    /// Two literals of the `migrations` list are not separated by a comma.
    ExpectedComma,
    /// An attribute other than `migrations` and `sql`.
    UnknownAttribute(String),
    /// Tokens are left over that the grammar does not take.
    UnexpectedToken,
    /// No migration source was given.
    NoMigrations,
}

pub struct AttrsModel {
    pub migrations: Seq<Seq<char>>,
    pub sql: Option<Seq<char>>,
}

pub enum AttrErrorModel {
    ExpectedEq,
    ExpectedBracket,
    ExpectedString,
    ExpectedComma,
    UnknownAttribute(Seq<char>),
    UnexpectedToken,
    NoMigrations,
}

pub open spec fn strings_view(v: Seq<String>) -> Seq<Seq<char>> {
    v.map_values(|s: String| s@)
}

pub open spec fn opt_string_view(o: Option<String>) -> Option<Seq<char>> {
    match o {
        Some(s) => Some(s@),
        None => None,
    }
}

impl View for CiterneAttributes {
    type V = AttrsModel;

    open spec fn view(&self) -> AttrsModel {
        AttrsModel { migrations: strings_view(self.migrations@), sql: opt_string_view(self.sql) }
    }
}

impl View for AttrError {
    type V = AttrErrorModel;

    open spec fn view(&self) -> AttrErrorModel {
        match self {
            AttrError::ExpectedEq => AttrErrorModel::ExpectedEq,
            AttrError::ExpectedBracket => AttrErrorModel::ExpectedBracket,
            AttrError::ExpectedString => AttrErrorModel::ExpectedString,
            AttrError::ExpectedComma => AttrErrorModel::ExpectedComma,
            AttrError::UnknownAttribute(s) => AttrErrorModel::UnknownAttribute(s@),
            AttrError::UnexpectedToken => AttrErrorModel::UnexpectedToken,
            AttrError::NoMigrations => AttrErrorModel::NoMigrations,
        }
    }
}

/// What the string literal written as `text` denotes, or `None` where `text`
/// is not one string literal.
pub uninterp spec fn lit_str_value(text: Seq<char>) -> Option<Seq<char>>;

/// Relies on `syn::parse_str::<syn::LitStr>`, which accepts exactly one string
/// literal, and on `syn::LitStr::value`, which gives the string it denotes.
#[verifier::external_body]
fn string_literal_value(text: &String) -> (r: Option<String>)
    ensures
        opt_string_view(r) == lit_str_value(text@),
{
    syn::parse_str::<syn::LitStr>(text).ok().map(|lit| lit.value())
}

pub open spec fn list_literal(t: ListToken) -> Option<Seq<char>> {
    match t {
        ListToken::Literal(s) => lit_str_value(s@),
        _ => None,
    }
}

pub open spec fn prepend(
    acc: Seq<Seq<char>>,
    r: Result<(Seq<Seq<char>>, bool), AttrErrorModel>,
) -> Result<(Seq<Seq<char>>, bool), AttrErrorModel> {
    match r {
        Ok((vs, left)) => Ok((acc + vs, left)),
        Err(e) => Err(e),
    }
}

/// The `migrations` list read from position `i`: the values of its literals,
/// and whether tokens are left that are not taken.
pub open spec fn list_spec(items: Seq<ListToken>, i: int) -> Result<
    (Seq<Seq<char>>, bool),
    AttrErrorModel,
>
    decreases items.len() - i,
{
    if 0 <= i < items.len() && list_literal(items[i]) is Some {
        let v = list_literal(items[i])->Some_0;
        if i + 1 == items.len() {
            Ok((seq![v], false))
        } else if items[i + 1] is Comma {
            prepend(seq![v], list_spec(items, i + 2))
        } else {
            Err(AttrErrorModel::ExpectedComma)
        }
    } else {
        Ok((seq![], 0 <= i < items.len()))
    }
}

pub open spec fn skip_comma(toks: Seq<AttrToken>, j: int) -> int {
    if 0 <= j < toks.len() && toks[j] is Comma {
        j + 1
    } else {
        j
    }
}

/// The attribute read from position `i`, with `m` the attributes read so far
/// and `unexpected` whether a list had tokens left over.
pub open spec fn attrs_spec(toks: Seq<AttrToken>, i: int, m: AttrsModel, unexpected: bool) -> Result<
    AttrsModel,
    AttrErrorModel,
>
    decreases toks.len() - i,
{
    if 0 <= i < toks.len() && toks[i] is Ident {
        let name = toks[i]->Ident_0@;
        if !(i + 1 < toks.len() && toks[i + 1] is Eq) {
            Err(AttrErrorModel::ExpectedEq)
        } else if name == "migrations"@ {
            if i + 2 < toks.len() && toks[i + 2] is Bracketed {
                match list_spec(toks[i + 2]->Bracketed_0@, 0) {
                    Ok((vs, left)) => attrs_spec(
                        toks,
                        skip_comma(toks, i + 3),
                        AttrsModel { migrations: vs, sql: m.sql },
                        unexpected || left,
                    ),
                    Err(e) => Err(e),
                }
            } else {
                Err(AttrErrorModel::ExpectedBracket)
            }
        } else if name == "sql"@ {
            if i + 2 < toks.len() && toks[i + 2] is Literal && lit_str_value(
                toks[i + 2]->Literal_0@,
            ) is Some {
                attrs_spec(
                    toks,
                    skip_comma(toks, i + 3),
                    AttrsModel {
                        migrations: m.migrations,
                        sql: lit_str_value(toks[i + 2]->Literal_0@),
                    },
                    unexpected,
                )
            } else {
                Err(AttrErrorModel::ExpectedString)
            }
        } else {
            Err(AttrErrorModel::UnknownAttribute(name))
        }
    } else if m.migrations.len() == 0 {
        Err(AttrErrorModel::NoMigrations)
    } else if unexpected || 0 <= i < toks.len() {
        Err(AttrErrorModel::UnexpectedToken)
    } else {
        Ok(m)
    }
}

/// The whole attribute.
pub open spec fn parse_spec(toks: Seq<AttrToken>) -> Result<AttrsModel, AttrErrorModel> {
    attrs_spec(toks, 0, AttrsModel { migrations: seq![], sql: None }, false)
}

pub open spec fn list_result_view(r: Result<(Vec<String>, bool), AttrError>) -> Result<
    (Seq<Seq<char>>, bool),
    AttrErrorModel,
> {
    match r {
        Ok((v, left)) => Ok((strings_view(v@), left)),
        Err(e) => Err(e@),
    }
}

pub open spec fn attrs_result_view(r: Result<CiterneAttributes, AttrError>) -> Result<
    AttrsModel,
    AttrErrorModel,
> {
    match r {
        Ok(a) => Ok(a@),
        Err(e) => Err(e@),
    }
}

proof fn lemma_prepend_push(
    acc: Seq<Seq<char>>,
    v: Seq<char>,
    r: Result<(Seq<Seq<char>>, bool), AttrErrorModel>,
)
    ensures
        prepend(acc, prepend(seq![v], r)) == prepend(acc.push(v), r),
{
    match r {
        Ok((vs, left)) => {
            assert(acc + (seq![v] + vs) =~= acc.push(v) + vs);
        },
        Err(_) => {},
    }
}

impl CiterneAttributes {
    /// Reads the literals of a `migrations` list.
    pub fn parse_migrations(items: &Vec<ListToken>) -> (r: Result<(Vec<String>, bool), AttrError>)
        ensures
            list_result_view(r) == list_spec(items@, 0),
    {
        let mut acc: Vec<String> = Vec::new();
        let mut i: usize = 0;
        assert(prepend(strings_view(acc@), list_spec(items@, 0)) == list_spec(items@, 0)) by {
            match list_spec(items@, 0) {
                Ok((vs, left)) => {
                    assert(strings_view(acc@) + vs =~= vs);
                },
                Err(_) => {},
            }
        }
        loop
            invariant
                i <= items.len(),
                list_spec(items@, 0) == prepend(strings_view(acc@), list_spec(items@, i as int)),
            decreases items.len() - i,
        {
            let value = if i < items.len() {
                match &items[i] {
                    ListToken::Literal(text) => string_literal_value(text),
                    _ => None,
                }
            } else {
                None
            };
            match value {
                None => {
                    let left = i < items.len();
                    assert(strings_view(acc@) + seq![] =~= strings_view(acc@));
                    return Ok((acc, left));
                },
                Some(v) => {
                    proof {
                        lemma_prepend_push(strings_view(acc@), v@, list_spec(items@, i as int + 2));
                    }
                    let ghost old_acc = acc@;
                    acc.push(v);
                    assert(strings_view(acc@) =~= strings_view(old_acc).push(v@));
                    if i + 1 == items.len() {
                        assert(strings_view(old_acc) + seq![v@] =~= strings_view(acc@));
                        return Ok((acc, false));
                    }
                    match &items[i + 1] {
                        ListToken::Comma => {
                            i = i + 2;
                        },
                        _ => {
                            return Err(AttrError::ExpectedComma);
                        },
                    }
                },
            }
        }
    }

    /// Reads the whole attribute. Attributes may be separated by commas; a
    /// later `migrations` or `sql` replaces an earlier one.
    pub fn parse(tokens: &Vec<AttrToken>) -> (r: Result<CiterneAttributes, AttrError>)
        ensures
            attrs_result_view(r) == parse_spec(tokens@),
    {
        let mut migrations: Vec<String> = Vec::new();
        let mut sql: Option<String> = None;
        let mut unexpected = false;
        let mut i: usize = 0;
        let migrations_word = "migrations".to_string();
        let sql_word = "sql".to_string();
        assert(strings_view(migrations@) =~= seq![]);
        loop
            invariant
                i <= tokens.len(),
                migrations_word@ == "migrations"@,
                sql_word@ == "sql"@,
                parse_spec(tokens@) == attrs_spec(
                    tokens@,
                    i as int,
                    AttrsModel { migrations: strings_view(migrations@), sql: opt_string_view(sql) },
                    unexpected,
                ),
            ensures
                i <= tokens.len(),
                i < tokens.len() ==> !(tokens@[i as int] is Ident),
                parse_spec(tokens@) == attrs_spec(
                    tokens@,
                    i as int,
                    AttrsModel { migrations: strings_view(migrations@), sql: opt_string_view(sql) },
                    unexpected,
                ),
            decreases tokens.len() - i,
        {
            if i >= tokens.len() {
                break;
            }
            let name = match &tokens[i] {
                AttrToken::Ident(n) => n,
                _ => {
                    break;
                },
            };
            if !(i + 1 < tokens.len() && matches!(tokens[i + 1], AttrToken::Eq)) {
                return Err(AttrError::ExpectedEq);
            }
            if *name == migrations_word {
                if i + 2 >= tokens.len() {
                    return Err(AttrError::ExpectedBracket);
                }
                match &tokens[i + 2] {
                    AttrToken::Bracketed(items) => {
                        match Self::parse_migrations(items) {
                            Ok((values, left)) => {
                                migrations = values;
                                unexpected = unexpected || left;
                            },
                            Err(e) => {
                                return Err(e);
                            },
                        }
                    },
                    _ => {
                        return Err(AttrError::ExpectedBracket);
                    },
                }
            } else if *name == sql_word {
                if i + 2 >= tokens.len() {
                    return Err(AttrError::ExpectedString);
                }
                let value = match &tokens[i + 2] {
                    AttrToken::Literal(text) => string_literal_value(text),
                    _ => None,
                };
                match value {
                    Some(v) => {
                        sql = Some(v);
                    },
                    None => {
                        return Err(AttrError::ExpectedString);
                    },
                }
            } else {
                return Err(AttrError::UnknownAttribute(name.clone()));
            }
            i = i + 3;
            if i < tokens.len() && matches!(tokens[i], AttrToken::Comma) {
                i = i + 1;
            }
        }
        assert(strings_view(migrations@).len() == migrations@.len());
        if migrations.len() == 0 {
            return Err(AttrError::NoMigrations);
        }
        if unexpected || i < tokens.len() {
            return Err(AttrError::UnexpectedToken);
        }
        Ok(CiterneAttributes { migrations, sql })
    }
}

} // verus!
