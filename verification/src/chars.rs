//! Character classes of the grammar: RFC 5234 core rules, the `ftext` rule of
//! RFC 5322, the `token` rule of RFC 2045, and the base64 alphabet used by
//! armored signature data.
use vstd::prelude::*;

verus! {

/// WSP = SP / HTAB
pub open spec fn wsp(c: char) -> bool {
    c == ' ' || c == '\t'
}

#[verifier::when_used_as_spec(wsp)]
pub fn is_wsp(i: char) -> (r: bool)
    ensures
        r == wsp(i),
{
    i == ' ' || i == '\t'
}

/// VCHAR = %x21-7E, the visible US-ASCII characters
pub open spec fn vchar(c: char) -> bool {
    0x21 <= c as u32 && c as u32 <= 0x7e
}

#[verifier::when_used_as_spec(vchar)]
pub fn is_vchar(i: char) -> (r: bool)
    ensures
        r == vchar(i),
{
    0x21 <= i as u32 && i as u32 <= 0x7e
}

/// ftext = %d33-57 / %d59-126: printable US-ASCII without ":"
pub open spec fn ftext(c: char) -> bool {
    (0x21 <= c as u32 && c as u32 <= 0x39) || (0x3b <= c as u32 && c as u32 <= 0x7e)
}

#[verifier::when_used_as_spec(ftext)]
pub fn is_ftext_char(i: char) -> (r: bool)
    ensures
        r == ftext(i),
{
    (0x21 <= i as u32 && i as u32 <= 0x39) || (0x3b <= i as u32 && i as u32 <= 0x7e)
}

/// tspecials of RFC 2045: "(" ")" "<" ">" "@" "," ";" ":" "\" <"> "/" "[" "]" "?" "="
pub open spec fn tspecial(c: char) -> bool {
    c == '(' || c == ')' || c == '<' || c == '>' || c == '@' || c == ',' || c == ';' || c == ':'
        || c == '\\' || c == '"' || c == '/' || c == '[' || c == ']' || c == '?' || c == '='
}

/// token character: US-ASCII excluding SP, controls and the tspecials
pub open spec fn token_char(c: char) -> bool {
    vchar(c) && !tspecial(c)
}

#[verifier::when_used_as_spec(token_char)]
pub fn is_token_char(i: char) -> (r: bool)
    ensures
        r == token_char(i),
{
    is_vchar(i) && !(i == '(' || i == ')' || i == '<' || i == '>' || i == '@' || i == ','
        || i == ';' || i == ':' || i == '\\' || i == '"' || i == '/' || i == '[' || i == ']'
        || i == '?' || i == '=')
}

/// base64 alphabet of armored signature data: ALPHA / DIGIT / "=" / "+" / "/"
pub open spec fn signature_data_char(c: char) -> bool {
    (0x41 <= c as u32 && c as u32 <= 0x5a) || (0x61 <= c as u32 && c as u32 <= 0x7a) || (0x30
        <= c as u32 && c as u32 <= 0x39) || c == '=' || c == '+' || c == '/'
}

#[verifier::when_used_as_spec(signature_data_char)]
pub fn is_signature_data_char(i: char) -> (r: bool)
    ensures
        r == signature_data_char(i),
{
    (0x41 <= i as u32 && i as u32 <= 0x5a) || (0x61 <= i as u32 && i as u32 <= 0x7a) || (0x30
        <= i as u32 && i as u32 <= 0x39) || i == '=' || i == '+' || i == '/'
}

/// A character allowed after "#" in a comment line: WSP / VCHAR / %x80-FFFFF
pub open spec fn comment_char(c: char) -> bool {
    wsp(c) || vchar(c) || (0x80 <= c as u32 && c as u32 <= 0xfffff)
}

/// A character that `trim` removes from the ends of a field value; values hold
/// only VCHAR, WSP and the CR LF of folding whitespace, so these four cover
/// every whitespace character that can occur there.
pub open spec fn trimmable(c: char) -> bool {
    c == ' ' || c == '\t' || c == '\r' || c == '\n'
}

/// Anything but CR and LF: the interior of a cleartext line.
pub open spec fn line_char(c: char) -> bool {
    c != '\r' && c != '\n'
}

} // verus!
