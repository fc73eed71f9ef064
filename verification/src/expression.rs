//! Arithmetic expressions over named variables, parsed by `meval`.

use vstd::prelude::*;

verus! {

/// A character that `meval` skips between tokens.
pub open spec fn spacing(c: char) -> bool {
    c == ' ' || c == '\t' || c == '\r' || c == '\n'
}

/// A text of spacing alone. `meval` does not return on such a text: its
/// tokenizer panics there.
pub open spec fn blank(t: Seq<char>) -> bool {
    &&& t.len() > 0
    &&& forall|i: int| 0 <= i < t.len() ==> spacing(#[trigger] t[i])
}

/// The texts of a list of strings.
pub open spec fn texts(v: Seq<String>) -> Seq<Seq<char>> {
    v.map_values(|s: String| s@)
}

/// The text of an optional string.
pub open spec fn text_of(o: Option<String>) -> Option<Seq<char>> {
    match o {
        Some(s) => Some(s@),
        None => None,
    }
}

/// What `meval::Expr::from_str` has against a text: nothing where it parses,
/// else the error's message.
pub uninterp spec fn parse_fault(text: Seq<char>) -> Option<Seq<char>>;

/// What `meval::Expr::bindn`, applied to what `text` parses to, has against
/// the variables `names`: nothing where every variable and function of the
/// expression is known, else the error's message; the parser's message where
/// `text` does not parse.
pub uninterp spec fn bind_fault(text: Seq<char>, names: Seq<Seq<char>>) -> Option<Seq<char>>;

/// Calls `meval::Expr::from_str`. The contract names its verdict as a function
/// of the text; which texts parse is left to that name.
#[verifier::external_body]
pub(crate) fn check_expression(text: &str) -> (r: Option<String>)
    requires
        !blank(text@),
    ensures
        text_of(r) == parse_fault(text@),
{
    match text.parse::<meval::Expr>() {
        Ok(_) => None,
        Err(e) => Some(e.to_string()),
    }
}

/// Calls `meval::Expr::bindn` on the parsed text. The contract names its
/// verdict as a function of the text and of the variable names; where the text
/// does not parse, that verdict is the parser's.
#[verifier::external_body]
pub(crate) fn check_binding(text: &str, names: &Vec<String>) -> (r: Option<String>)
    requires
        !blank(text@),
    ensures
        text_of(r) == bind_fault(text@, texts(names@)),
        parse_fault(text@) is Some ==> text_of(r) == parse_fault(text@),
{
    let vars: Vec<&str> = names.iter().map(|n| n.as_str()).collect();
    match text.parse::<meval::Expr>().and_then(|e| e.bindn(&vars).map(|_| ())) {
        Ok(()) => None,
        Err(e) => Some(e.to_string()),
    }
}

/// Whether a text is blank.
pub fn is_blank(text: &str) -> (r: bool)
    ensures
        r == blank(text@),
{
    let cs = crate::text::characters(text);
    let mut i: usize = 0;
    while i < cs.len()
        invariant
            cs@ == text@,
            i <= cs@.len(),
            forall|j: int| 0 <= j < i ==> spacing(#[trigger] cs@[j]),
        decreases cs@.len() - i,
    {
        let c = cs[i];
        if c != ' ' && c != '\t' && c != '\r' && c != '\n' {
            assert(!spacing(cs@[i as int]));
            return false;
        }
        i = i + 1;
    }
    cs.len() > 0
}

/// What the parser has against a text; the mark, in its place, for a blank text,
/// which the parser does not take.
pub(crate) fn check_marked(text: &str, mark: &Option<String>) -> (r: Option<String>)
    ensures
        blank(text@) ==> text_of(r) == text_of(*mark),
        !blank(text@) ==> text_of(r) == parse_fault(text@),
{
    if is_blank(text) {
        crate::domain::copy_text(mark)
    } else {
        check_expression(text)
    }
}

/// What binding has against a text and these names; the mark, in its place, for
/// a blank text.
pub(crate) fn bind_marked(text: &str, names: &Vec<String>, mark: &Option<String>) -> (r: Option<String>)
    ensures
        blank(text@) ==> text_of(r) == text_of(*mark),
        !blank(text@) ==> text_of(r) == bind_fault(text@, texts(names@)),
{
    if is_blank(text) {
        crate::domain::copy_text(mark)
    } else {
        check_binding(text, names)
    }
}

} // verus!
