//! The reserved-word table: a closed, case-insensitive vocabulary mapping
//! reserved words to symbolic identities, with the inverse mapping from an
//! identity to its canonical uppercase spelling.
//!
//! Besides the base vocabulary, the table holds the join-related words
//! (`JOIN`, `ON`, `USING`, `INNER`, `LEFT`, `RIGHT`, `FULL`, `OUTER`) that
//! the join grammar needs in order to be recognizable at all.

use vstd::prelude::*;

verus! {

/// A reserved word of the statement grammar.
#[derive(Debug, Clone, Copy, PartialEq, Eq, Structural)]
pub enum Keyword {
    Select,
    From,
    Where,
    Group,
    By,
    Having,
    Order,
    Asc,
    Dec,
    Offset,
    Limit,
    Join,
    On,
    Using,
    Inner,
    Left,
    Right,
    Full,
    Outer,
}

/// Error for a word that names no keyword of the closed vocabulary.
#[derive(Debug, Clone, Copy, PartialEq, Eq, Structural)]
pub struct IllegalEnumValueError;

/// The ASCII-lowercase image of one character; characters outside the
/// ASCII uppercase letters are unchanged.
pub open spec fn lower_char(c: char) -> char {
    if 'A' <= c && c <= 'Z' {
        ((c as u8) + 0x20) as char
    } else {
        c
    }
}

/// The ASCII-lowercase image of a character sequence.
pub open spec fn lower(s: Seq<char>) -> Seq<char> {
    s.map_values(|c: char| lower_char(c))
}

/// Two words are case-insensitively equal when their lowercase images agree.
pub open spec fn eq_icase(a: Seq<char>, b: Seq<char>) -> bool {
    lower(a) == lower(b)
}

/// The keyword, if any, that a word names, matched case-insensitively.
pub open spec fn keyword_of(w: Seq<char>) -> Option<Keyword> {
    if eq_icase(w, "select"@) {
        Some(Keyword::Select)
    } else if eq_icase(w, "from"@) {
        Some(Keyword::From)
    } else if eq_icase(w, "where"@) {
        Some(Keyword::Where)
    } else if eq_icase(w, "group"@) {
        Some(Keyword::Group)
    } else if eq_icase(w, "by"@) {
        Some(Keyword::By)
    } else if eq_icase(w, "having"@) {
        Some(Keyword::Having)
    } else if eq_icase(w, "order"@) {
        Some(Keyword::Order)
    } else if eq_icase(w, "asc"@) {
        Some(Keyword::Asc)
    } else if eq_icase(w, "dec"@) {
        Some(Keyword::Dec)
    } else if eq_icase(w, "offset"@) {
        Some(Keyword::Offset)
    } else if eq_icase(w, "limit"@) {
        Some(Keyword::Limit)
    } else if eq_icase(w, "join"@) {
        Some(Keyword::Join)
    } else if eq_icase(w, "on"@) {
        Some(Keyword::On)
    } else if eq_icase(w, "using"@) {
        Some(Keyword::Using)
    } else if eq_icase(w, "inner"@) {
        Some(Keyword::Inner)
    } else if eq_icase(w, "left"@) {
        Some(Keyword::Left)
    } else if eq_icase(w, "right"@) {
        Some(Keyword::Right)
    } else if eq_icase(w, "full"@) {
        Some(Keyword::Full)
    } else if eq_icase(w, "outer"@) {
        Some(Keyword::Outer)
    } else {
        None
    }
}

/// The canonical uppercase spelling of a keyword.
pub open spec fn spec_canonical(k: Keyword) -> Seq<char> {
    match k {
        Keyword::Select => "SELECT"@,
        Keyword::From => "FROM"@,
        Keyword::Where => "WHERE"@,
        Keyword::Group => "GROUP"@,
        Keyword::By => "BY"@,
        Keyword::Having => "HAVING"@,
        Keyword::Order => "ORDER"@,
        Keyword::Asc => "ASC"@,
        Keyword::Dec => "DEC"@,
        Keyword::Offset => "OFFSET"@,
        Keyword::Limit => "LIMIT"@,
        Keyword::Join => "JOIN"@,
        Keyword::On => "ON"@,
        Keyword::Using => "USING"@,
        Keyword::Inner => "INNER"@,
        Keyword::Left => "LEFT"@,
        Keyword::Right => "RIGHT"@,
        Keyword::Full => "FULL"@,
        Keyword::Outer => "OUTER"@,
    }
}

/// The executable ASCII-lowercase fold of one character.
pub fn lower_char_exec(c: char) -> (r: char)
    ensures
        r == lower_char(c),
{
    if 'A' <= c && c <= 'Z' {
        (c as u8 + 0x20) as char
    } else {
        c
    }
}

/// Compares two words case-insensitively, folding ASCII letters only.
pub fn eq_ignore_ascii_case(a: &str, b: &str) -> (r: bool)
    ensures
        r == eq_icase(a@, b@),
{
    let a_len = a.unicode_len();
    let b_len = b.unicode_len();
    if a_len != b_len {
        proof {
            assert(lower(a@).len() == a@.len());
            assert(lower(b@).len() == b@.len());
        }
        return false;
    }
    let mut i: usize = 0;
    while i < a_len
        invariant
            a_len == a@.len(),
            b_len == b@.len(),
            a_len == b_len,
            i <= a_len,
            forall|j: int| 0 <= j < i ==> lower(a@)[j] == lower(b@)[j],
        decreases a_len - i,
    {
        let ca = a.get_char(i);
        let cb = b.get_char(i);
        if lower_char_exec(ca) != lower_char_exec(cb) {
            proof {
                assert(lower(a@)[i as int] != lower(b@)[i as int]);
            }
            return false;
        }
        i += 1;
    }
    proof {
        assert(lower(a@) =~= lower(b@));
    }
    true
}

impl Keyword {
    /// Looks the given word up in the reserved-word table, matching
    /// case-insensitively.
    pub fn from_word(word: &str) -> (r: Result<Keyword, IllegalEnumValueError>)
        ensures
            r == match keyword_of(word@) {
                Some(k) => Ok::<Keyword, IllegalEnumValueError>(k),
                None => Err::<Keyword, IllegalEnumValueError>(IllegalEnumValueError),
            },
    {
        if eq_ignore_ascii_case(word, "select") {
            Ok(Keyword::Select)
        } else if eq_ignore_ascii_case(word, "from") {
            Ok(Keyword::From)
        } else if eq_ignore_ascii_case(word, "where") {
            Ok(Keyword::Where)
        } else if eq_ignore_ascii_case(word, "group") {
            Ok(Keyword::Group)
        } else if eq_ignore_ascii_case(word, "by") {
            Ok(Keyword::By)
        } else if eq_ignore_ascii_case(word, "having") {
            Ok(Keyword::Having)
        } else if eq_ignore_ascii_case(word, "order") {
            Ok(Keyword::Order)
        } else if eq_ignore_ascii_case(word, "asc") {
            Ok(Keyword::Asc)
        } else if eq_ignore_ascii_case(word, "dec") {
            Ok(Keyword::Dec)
        } else if eq_ignore_ascii_case(word, "offset") {
            Ok(Keyword::Offset)
        } else if eq_ignore_ascii_case(word, "limit") {
            Ok(Keyword::Limit)
        } else if eq_ignore_ascii_case(word, "join") {
            Ok(Keyword::Join)
        } else if eq_ignore_ascii_case(word, "on") {
            Ok(Keyword::On)
        } else if eq_ignore_ascii_case(word, "using") {
            Ok(Keyword::Using)
        } else if eq_ignore_ascii_case(word, "inner") {
            Ok(Keyword::Inner)
        } else if eq_ignore_ascii_case(word, "left") {
            Ok(Keyword::Left)
        } else if eq_ignore_ascii_case(word, "right") {
            Ok(Keyword::Right)
        } else if eq_ignore_ascii_case(word, "full") {
            Ok(Keyword::Full)
        } else if eq_ignore_ascii_case(word, "outer") {
            Ok(Keyword::Outer)
        } else {
            Err(IllegalEnumValueError)
        }
    }

    /// The canonical uppercase spelling, used for display.
    pub fn canonical(&self) -> (r: String)
        ensures
            r@ == spec_canonical(*self),
    {
        let s: &str = match self {
            Keyword::Select => "SELECT",
            Keyword::From => "FROM",
            Keyword::Where => "WHERE",
            Keyword::Group => "GROUP",
            Keyword::By => "BY",
            Keyword::Having => "HAVING",
            Keyword::Order => "ORDER",
            Keyword::Asc => "ASC",
            Keyword::Dec => "DEC",
            Keyword::Offset => "OFFSET",
            Keyword::Limit => "LIMIT",
            Keyword::Join => "JOIN",
            Keyword::On => "ON",
            Keyword::Using => "USING",
            Keyword::Inner => "INNER",
            Keyword::Left => "LEFT",
            Keyword::Right => "RIGHT",
            Keyword::Full => "FULL",
            Keyword::Outer => "OUTER",
        };
        s.to_owned()
    }
}

/// Case-insensitivity of the keyword table: two words whose ASCII-lowercase
/// images agree name the same keyword, or both name none.
pub proof fn lemma_keyword_case_insensitive(a: Seq<char>, b: Seq<char>)
    requires
        eq_icase(a, b),
    ensures
        keyword_of(a) == keyword_of(b),
{
}

/// The keyword table's two directions agree: the canonical uppercase
/// spelling of every keyword names exactly that keyword when looked up
/// case-insensitively.
pub proof fn lemma_canonical_round_trip(k: Keyword)
    ensures
        keyword_of(spec_canonical(k)) == Some(k),
{
    reveal_strlit("SELECT");
    reveal_strlit("select");
    reveal_strlit("FROM");
    reveal_strlit("from");
    reveal_strlit("WHERE");
    reveal_strlit("where");
    reveal_strlit("GROUP");
    reveal_strlit("group");
    reveal_strlit("BY");
    reveal_strlit("by");
    reveal_strlit("HAVING");
    reveal_strlit("having");
    reveal_strlit("ORDER");
    reveal_strlit("order");
    reveal_strlit("ASC");
    reveal_strlit("asc");
    reveal_strlit("DEC");
    reveal_strlit("dec");
    reveal_strlit("OFFSET");
    reveal_strlit("offset");
    reveal_strlit("LIMIT");
    reveal_strlit("limit");
    reveal_strlit("JOIN");
    reveal_strlit("join");
    reveal_strlit("ON");
    reveal_strlit("on");
    reveal_strlit("USING");
    reveal_strlit("using");
    reveal_strlit("INNER");
    reveal_strlit("inner");
    reveal_strlit("LEFT");
    reveal_strlit("left");
    reveal_strlit("RIGHT");
    reveal_strlit("right");
    reveal_strlit("FULL");
    reveal_strlit("full");
    reveal_strlit("OUTER");
    reveal_strlit("outer");
    assert(lower("select"@) =~= "select"@);
    assert(lower("from"@) =~= "from"@);
    assert(lower("where"@) =~= "where"@);
    assert(lower("group"@) =~= "group"@);
    assert(lower("by"@) =~= "by"@);
    assert(lower("having"@) =~= "having"@);
    assert(lower("order"@) =~= "order"@);
    assert(lower("asc"@) =~= "asc"@);
    assert(lower("dec"@) =~= "dec"@);
    assert(lower("offset"@) =~= "offset"@);
    assert(lower("limit"@) =~= "limit"@);
    assert(lower("join"@) =~= "join"@);
    assert(lower("on"@) =~= "on"@);
    assert(lower("using"@) =~= "using"@);
    assert(lower("inner"@) =~= "inner"@);
    assert(lower("left"@) =~= "left"@);
    assert(lower("right"@) =~= "right"@);
    assert(lower("full"@) =~= "full"@);
    assert(lower("outer"@) =~= "outer"@);
    match k {
        Keyword::Select => {
            assert(lower(spec_canonical(k)) =~= "select"@);
        },
        Keyword::From => {
            assert(lower(spec_canonical(k)) =~= "from"@);
        },
        Keyword::Where => {
            assert(lower(spec_canonical(k)) =~= "where"@);
        },
        Keyword::Group => {
            assert(lower(spec_canonical(k)) =~= "group"@);
            assert("group"@[0] != "where"@[0]);
        },
        Keyword::By => {
            assert(lower(spec_canonical(k)) =~= "by"@);
        },
        Keyword::Having => {
            assert(lower(spec_canonical(k)) =~= "having"@);
            assert("having"@[0] != "select"@[0]);
        },
        Keyword::Order => {
            assert(lower(spec_canonical(k)) =~= "order"@);
            assert("order"@[0] != "where"@[0]);
            assert("order"@[0] != "group"@[0]);
        },
        Keyword::Asc => {
            assert(lower(spec_canonical(k)) =~= "asc"@);
        },
        Keyword::Dec => {
            assert(lower(spec_canonical(k)) =~= "dec"@);
            assert("dec"@[0] != "asc"@[0]);
        },
        Keyword::Offset => {
            assert(lower(spec_canonical(k)) =~= "offset"@);
            assert("offset"@[0] != "select"@[0]);
            assert("offset"@[0] != "having"@[0]);
        },
        Keyword::Limit => {
            assert(lower(spec_canonical(k)) =~= "limit"@);
            assert("limit"@[0] != "where"@[0]);
            assert("limit"@[0] != "group"@[0]);
            assert("limit"@[0] != "order"@[0]);
        },
        Keyword::Join => {
            assert(lower(spec_canonical(k)) =~= "join"@);
            assert("join"@[0] != "from"@[0]);
        },
        Keyword::On => {
            assert(lower(spec_canonical(k)) =~= "on"@);
            assert("on"@[0] != "by"@[0]);
        },
        Keyword::Using => {
            assert(lower(spec_canonical(k)) =~= "using"@);
            assert("using"@[0] != "where"@[0]);
            assert("using"@[0] != "group"@[0]);
            assert("using"@[0] != "order"@[0]);
            assert("using"@[0] != "limit"@[0]);
        },
        Keyword::Inner => {
            assert(lower(spec_canonical(k)) =~= "inner"@);
            assert("inner"@[0] != "where"@[0]);
            assert("inner"@[0] != "group"@[0]);
            assert("inner"@[0] != "order"@[0]);
            assert("inner"@[0] != "limit"@[0]);
            assert("inner"@[0] != "using"@[0]);
        },
        Keyword::Left => {
            assert(lower(spec_canonical(k)) =~= "left"@);
            assert("left"@[0] != "from"@[0]);
            assert("left"@[0] != "join"@[0]);
        },
        Keyword::Right => {
            assert(lower(spec_canonical(k)) =~= "right"@);
            assert("right"@[0] != "where"@[0]);
            assert("right"@[0] != "group"@[0]);
            assert("right"@[0] != "order"@[0]);
            assert("right"@[0] != "limit"@[0]);
            assert("right"@[0] != "using"@[0]);
            assert("right"@[0] != "inner"@[0]);
        },
        Keyword::Full => {
            assert(lower(spec_canonical(k)) =~= "full"@);
            assert("full"@[1] != "from"@[1]);
            assert("full"@[0] != "join"@[0]);
            assert("full"@[0] != "left"@[0]);
        },
        Keyword::Outer => {
            assert(lower(spec_canonical(k)) =~= "outer"@);
            assert("outer"@[0] != "where"@[0]);
            assert("outer"@[0] != "group"@[0]);
            assert("outer"@[1] != "order"@[1]);
            assert("outer"@[0] != "limit"@[0]);
            assert("outer"@[0] != "using"@[0]);
            assert("outer"@[0] != "inner"@[0]);
            assert("outer"@[0] != "right"@[0]);
        },
    }
}

} // verus!
