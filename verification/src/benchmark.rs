//! Text handling of the benchmark tools: the allowed-tempo column of a
//! manifest, the whitespace trimming it is read with, CSV cells, and the
//! names of the stretch presets.
use vstd::prelude::*;
use vstd::string::StrSliceExecFns;
use vstd::string::StringExecFns;

use crate::text::decimal;
use crate::text::push_decimal;
use crate::text::str_eq;

verus! {

/// The characters the standard library counts as white space (the Unicode
/// `White_Space` property).
pub open spec fn is_white_space(c: char) -> bool {
    ||| ('\t' <= c && c <= '\r')
    ||| c == ' '
    ||| c == '\u{85}'
    ||| c == '\u{a0}'
    ||| c == '\u{1680}'
    ||| ('\u{2000}' <= c && c <= '\u{200a}')
    ||| c == '\u{2028}'
    ||| c == '\u{2029}'
    ||| c == '\u{202f}'
    ||| c == '\u{205f}'
    ||| c == '\u{3000}'
}

fn white_space(c: char) -> (ws: bool)
    ensures
        ws == is_white_space(c),
{
    ('\t' <= c && c <= '\r') || c == ' ' || c == '\u{85}' || c == '\u{a0}' || c == '\u{1680}' || (
    '\u{2000}' <= c && c <= '\u{200a}') || c == '\u{2028}' || c == '\u{2029}' || c == '\u{202f}'
        || c == '\u{205f}' || c == '\u{3000}'
}

/// The text without its leading white space.
pub open spec fn trim_front(s: Seq<char>) -> Seq<char>
    decreases s.len(),
{
    if s.len() > 0 && is_white_space(s[0]) {
        trim_front(s.drop_first())
    } else {
        s
    }
}

/// The text without its trailing white space.
pub open spec fn trim_back(s: Seq<char>) -> Seq<char>
    decreases s.len(),
{
    if s.len() > 0 && is_white_space(s.last()) {
        trim_back(s.drop_last())
    } else {
        s
    }
}

/// The text without white space at either end.
pub open spec fn trimmed(s: Seq<char>) -> Seq<char> {
    trim_back(trim_front(s))
}

/// The text without white space at either end.
pub fn trim(text: &str) -> (t: &str)
    ensures
        t@ == trimmed(text@),
{
    let n = text.unicode_len();
    let mut i: usize = 0;
    assert(text@.subrange(0, n as int) =~= text@);
    while i < n && white_space(text.get_char(i))
        invariant
            n == text@.len(),
            0 <= i <= n,
            trim_front(text@) == trim_front(text@.subrange(i as int, n as int)),
        decreases n - i,
    {
        assert(text@.subrange(i as int, n as int).drop_first() =~= text@.subrange(i + 1, n as int));
        i = i + 1;
    }
    assert(trim_front(text@.subrange(i as int, n as int)) == text@.subrange(i as int, n as int));
    let mut j: usize = n;
    while j > i && white_space(text.get_char(j - 1))
        invariant
            n == text@.len(),
            0 <= i <= j <= n,
            trimmed(text@) == trim_back(text@.subrange(i as int, j as int)),
        decreases j - i,
    {
        assert(text@.subrange(i as int, j as int).drop_last() =~= text@.subrange(i as int, j - 1));
        j = j - 1;
    }
    text.substring_char(i, j)
}

/// Which tempo the benchmark accepts besides, or instead of, the expected
/// one.
#[derive(Clone, Copy, Debug, PartialEq, Eq, Structural)]
pub enum AllowedTempo {
    Exact,
    Half,
    Double,
    HalfOrDouble,
    Any,
}

/// The allowed tempo a manifest column names, after trimming; an absent or
/// empty column means exact.
pub open spec fn allowed_tempo_of(column: Option<Seq<char>>) -> Option<AllowedTempo> {
    match column {
        None => Some(AllowedTempo::Exact),
        Some(raw) => {
            let v = trimmed(raw);
            if v.len() == 0 || v == "exact"@ || v == "same"@ {
                Some(AllowedTempo::Exact)
            } else if v == "half"@ {
                Some(AllowedTempo::Half)
            } else if v == "double"@ {
                Some(AllowedTempo::Double)
            } else if v == "half-or-double"@ || v == "half_double"@ {
                Some(AllowedTempo::HalfOrDouble)
            } else if v == "any"@ {
                Some(AllowedTempo::Any)
            } else {
                None
            }
        },
    }
}

impl AllowedTempo {
    /// Reads the allowed-tempo column of a manifest row (see
    /// [`allowed_tempo_of`]); an unknown value is refused with a message that
    /// quotes it, trimmed.
    pub fn parse(value: Option<&str>) -> (parsed: Result<AllowedTempo, String>)
        ensures
            match allowed_tempo_of(
                match value {
                    Some(v) => Some(v@),
                    None => None,
                },
            ) {
                Some(t) => parsed == Ok::<AllowedTempo, String>(t),
                None => parsed matches Err(message) && message@ == "unknown allowed tempo value: "@
                    + trimmed(value->0@),
            },
    {
        match value {
            None => Ok(AllowedTempo::Exact),
            Some(raw) => {
                let v = trim(raw);
                if v.unicode_len() == 0 || str_eq(v, "exact") || str_eq(v, "same") {
                    Ok(AllowedTempo::Exact)
                } else if str_eq(v, "half") {
                    Ok(AllowedTempo::Half)
                } else if str_eq(v, "double") {
                    Ok(AllowedTempo::Double)
                } else if str_eq(v, "half-or-double") || str_eq(v, "half_double") {
                    Ok(AllowedTempo::HalfOrDouble)
                } else if str_eq(v, "any") {
                    Ok(AllowedTempo::Any)
                } else {
                    let mut message = String::from_str("unknown allowed tempo value: ");
                    message.append(v);
                    Err(message)
                }
            },
        }
    }

    /// The canonical spelling, as the report prints it.
    pub fn as_str(&self) -> (text: &'static str)
        ensures
            text@ == allowed_tempo_text(*self),
    {
        match self {
            AllowedTempo::Exact => "exact",
            AllowedTempo::Half => "half",
            AllowedTempo::Double => "double",
            AllowedTempo::HalfOrDouble => "half-or-double",
            AllowedTempo::Any => "any",
        }
    }
}

/// The canonical spelling of an allowed tempo.
pub open spec fn allowed_tempo_text(t: AllowedTempo) -> Seq<char> {
    match t {
        AllowedTempo::Exact => "exact"@,
        AllowedTempo::Half => "half"@,
        AllowedTempo::Double => "double"@,
        AllowedTempo::HalfOrDouble => "half-or-double"@,
        AllowedTempo::Any => "any"@,
    }
}

/// A report's allowed-tempo column reads back as the value it was written
/// from.
pub proof fn lemma_allowed_tempo_names_read_back(t: AllowedTempo)
    ensures
        allowed_tempo_of(Some(allowed_tempo_text(t))) == Some(t),
{
    reveal_strlit("exact");
    reveal_strlit("same");
    reveal_strlit("half");
    reveal_strlit("double");
    reveal_strlit("half-or-double");
    reveal_strlit("half_double");
    reveal_strlit("any");
    let s = allowed_tempo_text(t);
    assert(s.len() > 0);
    assert(!is_white_space(s[0]));
    assert(!is_white_space(s.last()));
    assert(trim_front(s) == s);
    assert(trim_back(s) == s);
    assert(trimmed(s) == s);
}

// ---------------------------------------------------------------------------
// Manifest lines
// ---------------------------------------------------------------------------
/// The text cut at every tab, empty pieces included.
pub open spec fn tab_fields(s: Seq<char>) -> Seq<Seq<char>>
    decreases s.len(),
{
    if s.len() == 0 {
        seq![Seq::empty()]
    } else {
        let before = tab_fields(s.drop_last());
        if s.last() == '\t' {
            before.push(Seq::empty())
        } else {
            before.update(before.len() - 1, before.last().push(s.last()))
        }
    }
}

proof fn lemma_tab_fields_not_empty(s: Seq<char>)
    ensures
        tab_fields(s).len() >= 1,
    decreases s.len(),
{
    if s.len() > 0 {
        lemma_tab_fields_not_empty(s.drop_last());
    }
}

/// A manifest line that holds no row: blank, or a comment starting with `#`
/// after leading white space.
pub open spec fn manifest_line_skipped(line: Seq<char>) -> bool {
    let t = trimmed(line);
    t.len() == 0 || t[0] == '#'
}

/// The columns of a manifest row: the line cut at every tab, each piece
/// trimmed.
pub open spec fn manifest_columns_of(line: Seq<char>) -> Seq<Seq<char>> {
    tab_fields(line).map_values(|f: Seq<char>| trimmed(f))
}

/// Cuts a manifest line into its trimmed, tab-separated columns; `None` for
/// a blank line or a comment.
pub fn manifest_columns(line: &str) -> (columns: Option<Vec<String>>)
    ensures
        match columns {
            None => manifest_line_skipped(line@),
            Some(c) => {
                &&& !manifest_line_skipped(line@)
                &&& c@.len() == manifest_columns_of(line@).len()
                &&& forall|k: int| 0 <= k < c@.len() ==> #[trigger] c@[k]@ == manifest_columns_of(line@)[k]
            },
        },
{
    let whole = trim(line);
    if whole.unicode_len() == 0 || whole.get_char(0) == '#' {
        return None;
    }
    let n = line.unicode_len();
    let mut columns: Vec<String> = Vec::new();
    let mut start: usize = 0;
    let mut i: usize = 0;
    while i < n
        invariant
            n == line@.len(),
            0 <= start <= i <= n,
            tab_fields(line@.take(i as int)).len() == columns@.len() + 1,
            tab_fields(line@.take(i as int)).last() == line@.subrange(start as int, i as int),
            forall|k: int|
                0 <= k < columns@.len() ==> #[trigger] columns@[k]@ == trimmed(
                    tab_fields(line@.take(i as int))[k],
                ),
        decreases n - i,
    {
        let ghost before = tab_fields(line@.take(i as int));
        proof {
            assert(line@.take(i + 1).drop_last() =~= line@.take(i as int));
            assert(line@.take(i + 1).last() == line@[i as int]);
        }
        if line.get_char(i) == '\t' {
            let piece = trim(line.substring_char(start, i));
            columns.push(String::from_str(piece));
            start = i + 1;
            proof {
                let after = tab_fields(line@.take(i + 1));
                assert(after == before.push(Seq::empty()));
                assert(line@.subrange(start as int, i + 1) =~= Seq::<char>::empty());
                assert forall|k: int| 0 <= k < columns@.len() implies #[trigger] columns@[k]@
                    == trimmed(after[k]) by {
                    if k < columns@.len() - 1 {
                        assert(after[k] == before[k]);
                    }
                }
            }
        } else {
            proof {
                let after = tab_fields(line@.take(i + 1));
                lemma_tab_fields_not_empty(line@.take(i as int));
                assert(after == before.update(before.len() - 1, before.last().push(line@[i as int])));
                assert(line@.subrange(start as int, i + 1) =~= line@.subrange(start as int, i as int).push(
                    line@[i as int],
                ));
                assert forall|k: int| 0 <= k < columns@.len() implies #[trigger] columns@[k]@
                    == trimmed(after[k]) by {
                    assert(after[k] == before[k]);
                }
            }
        }
        i = i + 1;
    }
    let piece = trim(line.substring_char(start, n));
    columns.push(String::from_str(piece));
    proof {
        assert(line@.take(n as int) =~= line@);
        let fields = tab_fields(line@);
        assert forall|k: int| 0 <= k < columns@.len() implies #[trigger] columns@[k]@
            == manifest_columns_of(line@)[k] by {
            assert(manifest_columns_of(line@)[k] == trimmed(fields[k]));
        }
    }
    Some(columns)
}

/// Why a manifest row was refused before its tempo was read: it has fewer
/// than two columns. The message names the line.
pub fn manifest_row_error(line_number: u64) -> (message: String)
    ensures
        message@ == "manifest line "@ + decimal(line_number as nat)
            + " must contain expected_bpm<TAB>path"@,
{
    let mut message = String::from_str("manifest line ");
    push_decimal(&mut message, line_number);
    message.append(" must contain expected_bpm<TAB>path");
    message
}

// ---------------------------------------------------------------------------
// CSV cells
// ---------------------------------------------------------------------------
/// A character that forces a CSV cell into quotes.
pub open spec fn is_csv_special(c: char) -> bool {
    c == ',' || c == '"' || c == '\n' || c == '\r'
}

/// The text with every double quote doubled.
pub open spec fn doubled_quotes(s: Seq<char>) -> Seq<char>
    decreases s.len(),
{
    if s.len() == 0 {
        Seq::empty()
    } else {
        doubled_quotes(s.drop_last()) + if s.last() == '"' {
            seq!['"', '"']
        } else {
            seq![s.last()]
        }
    }
}

/// A CSV cell holding the text: quoted, with its quotes doubled, where it
/// holds a comma, a quote or a line break; as it is otherwise.
pub open spec fn csv_cell_text(s: Seq<char>) -> Seq<char> {
    if exists|i: int| 0 <= i < s.len() && is_csv_special(#[trigger] s[i]) {
        seq!['"'] + doubled_quotes(s) + seq!['"']
    } else {
        s
    }
}

/// Writes a value as one CSV cell (see [`csv_cell_text`]).
pub fn csv_cell(value: &str) -> (cell: String)
    ensures
        cell@ == csv_cell_text(value@),
{
    let n = value.unicode_len();
    let mut special = false;
    let mut i: usize = 0;
    while i < n
        invariant
            n == value@.len(),
            0 <= i <= n,
            special == exists|k: int| 0 <= k < i && is_csv_special(#[trigger] value@[k]),
        decreases n - i,
    {
        let c = value.get_char(i);
        if c == ',' || c == '"' || c == '\n' || c == '\r' {
            special = true;
        }
        i = i + 1;
    }
    if !special {
        return String::from_str(value);
    }
    proof {
        reveal_strlit("\"");
    }
    let mut cell = String::from_str("\"");
    let mut run_start: usize = 0;
    let mut i: usize = 0;
    while i < n
        invariant
            n == value@.len(),
            0 <= run_start <= i <= n,
            cell@ == seq!['"'] + doubled_quotes(value@.take(run_start as int)),
            forall|k: int| run_start <= k < i ==> value@[k] != '"',
        decreases n - i,
    {
        let c = value.get_char(i);
        if c == '"' {
            proof {
                lemma_doubled_quotes_run(value@, run_start as int, i as int);
                reveal_strlit("\"");
            }
            cell.append(value.substring_char(run_start, i + 1));
            cell.append("\"");
            assert(cell@ =~= seq!['"'] + doubled_quotes(value@.take(i + 1)));
            run_start = i + 1;
        }
        i = i + 1;
    }
    proof {
        lemma_doubled_quotes_plain(value@, run_start as int, n as int);
        assert(value@.take(n as int) =~= value@);
    }
    cell.append(value.substring_char(run_start, n));
    cell.append("\"");
    cell
}

proof fn lemma_doubled_quotes_plain(s: Seq<char>, a: int, b: int)
    requires
        0 <= a <= b <= s.len(),
        forall|k: int| a <= k < b ==> s[k] != '"',
    ensures
        doubled_quotes(s.take(b)) == doubled_quotes(s.take(a)) + s.subrange(a, b),
    decreases b - a,
{
    if b > a {
        lemma_doubled_quotes_plain(s, a, b - 1);
        assert(s.take(b).drop_last() =~= s.take(b - 1));
        assert(s.subrange(a, b) =~= s.subrange(a, b - 1).push(s[b - 1]));
        assert(doubled_quotes(s.take(b)) =~= doubled_quotes(s.take(a)) + s.subrange(a, b));
    } else {
        assert(s.subrange(a, b) =~= Seq::<char>::empty());
        assert(doubled_quotes(s.take(a)) + s.subrange(a, b) =~= doubled_quotes(s.take(a)));
    }
}

proof fn lemma_doubled_quotes_run(s: Seq<char>, a: int, q: int)
    requires
        0 <= a <= q < s.len(),
        forall|k: int| a <= k < q ==> s[k] != '"',
        s[q] == '"',
    ensures
        doubled_quotes(s.take(q + 1)) == doubled_quotes(s.take(a)) + s.subrange(a, q + 1) + seq![
            '"',
        ],
{
    lemma_doubled_quotes_plain(s, a, q);
    assert(s.take(q + 1).drop_last() =~= s.take(q));
    assert(s.subrange(a, q + 1) =~= s.subrange(a, q).push('"'));
    assert(doubled_quotes(s.take(q + 1)) =~= doubled_quotes(s.take(a)) + s.subrange(a, q + 1)
        + seq!['"']);
}

/// A time-stretch configuration the stretch benchmark measures.
#[derive(Clone, Copy, Debug, PartialEq, Eq, Structural)]
pub enum Preset {
    Default,
    Cheaper,
}

impl Preset {
    /// The name the report prints.
    pub fn name(&self) -> (text: &'static str)
        ensures
            text@ == match self {
                Preset::Default => "default"@,
                Preset::Cheaper => "cheaper"@,
            },
    {
        match self {
            Preset::Default => "default",
            Preset::Cheaper => "cheaper",
        }
    }
}

} // verus!
