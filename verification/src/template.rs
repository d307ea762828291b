//! Channel names rendered from a naming template.
//!
//! A template is plain text with placeholders. `{number}` stands for the
//! channel's number in decimal, `{owner}` for the owner's display name and
//! `{presence}` for a glyph that shows the owner's presence. Any other text,
//! braces included, is copied as it is. Substituted text is not scanned again.

use vstd::prelude::*;
use crate::text::{chars_of, string_of};

verus! {

/// The longest channel name the platform accepts, in characters.
pub const MAX_NAME_LEN: usize = 100;

/// What the platform shows of a member's availability.
#[derive(Clone, Copy, Debug, PartialEq, Eq, Structural)]
pub enum Presence {
    Online,
    Idle,
    DoNotDisturb,
    Offline,
}

/// The glyph that stands for a presence in a channel name.
pub open spec fn glyph(presence: Presence) -> char {
    match presence {
        Presence::Online => '\u{1F7E2}',
        Presence::Idle => '\u{1F319}',
        Presence::DoNotDisturb => '\u{26D4}',
        Presence::Offline => '\u{26AB}',
    }
}

/// The character of one decimal digit.
pub open spec fn digit(d: int) -> char {
    if d == 0 {
        '0'
    } else if d == 1 {
        '1'
    } else if d == 2 {
        '2'
    } else if d == 3 {
        '3'
    } else if d == 4 {
        '4'
    } else if d == 5 {
        '5'
    } else if d == 6 {
        '6'
    } else if d == 7 {
        '7'
    } else if d == 8 {
        '8'
    } else {
        '9'
    }
}

/// `n` written in decimal, without leading zeros.
pub open spec fn decimal(n: nat) -> Seq<char>
    decreases n,
{
    if n < 10 {
        seq![digit(n as int)]
    } else {
        decimal(n / 10).push(digit((n % 10) as int))
    }
}

pub open spec fn number_token() -> Seq<char> {
    seq!['{', 'n', 'u', 'm', 'b', 'e', 'r', '}']
}

pub open spec fn owner_token() -> Seq<char> {
    seq!['{', 'o', 'w', 'n', 'e', 'r', '}']
}

pub open spec fn presence_token() -> Seq<char> {
    seq!['{', 'p', 'r', 'e', 's', 'e', 'n', 'c', 'e', '}']
}

/// `token` stands in `text` at index `at`.
pub open spec fn starts_at(text: Seq<char>, at: int, token: Seq<char>) -> bool {
    &&& 0 <= at
    &&& at + token.len() <= text.len()
    &&& text.subrange(at, at + token.len()) == token
}

/// The template from index `at` on, with each placeholder replaced, read
/// from left to right.
pub open spec fn expand(
    template: Seq<char>,
    at: int,
    number: Seq<char>,
    presence: Seq<char>,
    owner: Seq<char>,
) -> Seq<char>
    decreases template.len() - at,
{
    if at < 0 || at >= template.len() {
        Seq::empty()
    } else if starts_at(template, at, number_token()) {
        number + expand(template, at + 8, number, presence, owner)
    } else if starts_at(template, at, owner_token()) {
        owner + expand(template, at + 7, number, presence, owner)
    } else if starts_at(template, at, presence_token()) {
        presence + expand(template, at + 10, number, presence, owner)
    } else {
        seq![template[at]] + expand(template, at + 1, number, presence, owner)
    }
}

/// `text` cut down to its first `MAX_NAME_LEN` characters.
pub open spec fn clip(text: Seq<char>) -> Seq<char> {
    if text.len() > MAX_NAME_LEN {
        text.take(MAX_NAME_LEN as int)
    } else {
        text
    }
}

/// The channel name that a template gives for a number, a presence and an
/// owner's display name.
pub open spec fn render(template: Seq<char>, number: nat, presence: Presence, owner: Seq<char>) -> Seq<char> {
    clip(expand(template, 0, decimal(number), seq![glyph(presence)], owner))
}

/// The glyph that stands for `presence`.
pub fn presence_glyph(presence: Presence) -> (c: char)
    ensures
        c == glyph(presence),
{
    match presence {
        Presence::Online => '\u{1F7E2}',
        Presence::Idle => '\u{1F319}',
        Presence::DoNotDisturb => '\u{26D4}',
        Presence::Offline => '\u{26AB}',
    }
}

fn digit_char(d: u16) -> (c: char)
    requires
        d < 10,
    ensures
        c == digit(d as int),
{
    if d == 0 {
        '0'
    } else if d == 1 {
        '1'
    } else if d == 2 {
        '2'
    } else if d == 3 {
        '3'
    } else if d == 4 {
        '4'
    } else if d == 5 {
        '5'
    } else if d == 6 {
        '6'
    } else if d == 7 {
        '7'
    } else if d == 8 {
        '8'
    } else {
        '9'
    }
}

/// Appends `n` in decimal to `out`.
fn push_decimal(out: &mut Vec<char>, n: u16)
    ensures
        final(out)@ == old(out)@ + decimal(n as nat),
    decreases n,
{
    if n >= 10 {
        push_decimal(out, n / 10);
    }
    out.push(digit_char(n % 10));
    assert(final(out)@ =~= old(out)@ + decimal(n as nat));
}

/// `n` written in decimal.
pub fn decimal_digits(n: u16) -> (digits: Vec<char>)
    ensures
        digits@ == decimal(n as nat),
{
    let mut digits: Vec<char> = Vec::new();
    push_decimal(&mut digits, n);
    assert(digits@ =~= decimal(n as nat));
    digits
}

fn append_chars(out: &mut Vec<char>, extra: &Vec<char>)
    ensures
        final(out)@ == old(out)@ + extra@,
{
    let mut i: usize = 0;
    while i < extra.len()
        invariant
            i <= extra@.len(),
            out@ == old(out)@ + extra@.take(i as int),
        decreases extra@.len() - i,
    {
        out.push(extra[i]);
        i += 1;
        assert(out@ =~= old(out)@ + extra@.take(i as int));
    }
    assert(extra@.take(i as int) =~= extra@);
}

fn token_at(text: &Vec<char>, at: usize, token: &Vec<char>) -> (found: bool)
    requires
        at <= text@.len(),
    ensures
        found == starts_at(text@, at as int, token@),
{
    if text.len() - at < token.len() {
        return false;
    }
    let mut i: usize = 0;
    while i < token.len()
        invariant
            at + token@.len() <= text.len(),
            i <= token@.len(),
            forall|j: int| 0 <= j < i ==> text@[at + j] == token@[j],
        decreases token@.len() - i,
    {
        if text[at + i] != token[i] {
            assert(text@.subrange(at as int, at + token@.len())[i as int] != token@[i as int]);
            return false;
        }
        i += 1;
    }
    assert(text@.subrange(at as int, at + token@.len()) =~= token@);
    true
}

/// Renders a channel name over sequences of characters.
pub fn render_chars(template: &Vec<char>, number: u16, presence: Presence, owner: &Vec<char>) -> (name: Vec<char>)
    ensures
        name@ == render(template@, number as nat, presence, owner@),
        name@.len() <= MAX_NAME_LEN,
{
    let number_tok = chars_of("{number}");
    let owner_tok = chars_of("{owner}");
    let presence_tok = chars_of("{presence}");
    proof {
        reveal_strlit("{number}");
        reveal_strlit("{owner}");
        reveal_strlit("{presence}");
        assert(number_tok@ =~= number_token());
        assert(owner_tok@ =~= owner_token());
        assert(presence_tok@ =~= presence_token());
    }
    let digits = decimal_digits(number);
    let mut mark: Vec<char> = Vec::new();
    mark.push(presence_glyph(presence));
    assert(mark@ =~= seq![glyph(presence)]);
    let mut out: Vec<char> = Vec::new();
    let mut at: usize = 0;
    let ghost whole = expand(template@, 0, digits@, mark@, owner@);
    assert(out@ + whole =~= whole);
    while at < template.len()
        invariant
            at <= template@.len(),
            number_tok@ == number_token(),
            owner_tok@ == owner_token(),
            presence_tok@ == presence_token(),
            whole == expand(template@, 0, digits@, mark@, owner@),
            out@ + expand(template@, at as int, digits@, mark@, owner@) == whole,
        decreases template@.len() - at,
    {
        let ghost before = out@;
        if token_at(template, at, &number_tok) {
            append_chars(&mut out, &digits);
            at += 8;
            assert(out@ + expand(template@, at as int, digits@, mark@, owner@) =~= before + (digits@
                + expand(template@, at as int, digits@, mark@, owner@)));
        } else if token_at(template, at, &owner_tok) {
            append_chars(&mut out, owner);
            at += 7;
            assert(out@ + expand(template@, at as int, digits@, mark@, owner@) =~= before + (owner@
                + expand(template@, at as int, digits@, mark@, owner@)));
        } else if token_at(template, at, &presence_tok) {
            append_chars(&mut out, &mark);
            at += 10;
            assert(out@ + expand(template@, at as int, digits@, mark@, owner@) =~= before + (mark@
                + expand(template@, at as int, digits@, mark@, owner@)));
        } else {
            out.push(template[at]);
            at += 1;
            assert(out@ + expand(template@, at as int, digits@, mark@, owner@) =~= before + (
            seq![template@[at - 1]] + expand(template@, at as int, digits@, mark@, owner@)));
        }
    }
    assert(out@ =~= whole);
    out.truncate(MAX_NAME_LEN);
    out
}

/// Renders the name of a channel from its naming template: every
/// placeholder is replaced, and the result is cut to `MAX_NAME_LEN`
/// characters.
pub fn get_name_from_template(template: &str, number: u16, presence: Presence, owner_name: &str) -> (name: String)
    ensures
        name@ == render(template@, number as nat, presence, owner_name@),
        name@.len() <= MAX_NAME_LEN,
{
    let template_chars = chars_of(template);
    let owner_chars = chars_of(owner_name);
    let name = render_chars(&template_chars, number, presence, &owner_chars);
    string_of(&name)
}

/// A recognised placeholder stands in `template` at index `at`.
pub open spec fn placeholder_at(template: Seq<char>, at: int) -> bool {
    ||| starts_at(template, at, number_token())
    ||| starts_at(template, at, owner_token())
    ||| starts_at(template, at, presence_token())
}

/// Text in which no recognised placeholder stands is copied as it is,
/// whatever else it holds.
pub proof fn lemma_text_without_placeholders_is_kept(
    template: Seq<char>,
    at: int,
    number: Seq<char>,
    presence: Seq<char>,
    owner: Seq<char>,
)
    requires
        0 <= at <= template.len(),
        forall|i: int| at <= i < template.len() ==> !placeholder_at(template, i),
    ensures
        expand(template, at, number, presence, owner) == template.subrange(at, template.len() as int),
    decreases template.len() - at,
{
    if at < template.len() {
        assert(!placeholder_at(template, at));
        lemma_text_without_placeholders_is_kept(template, at + 1, number, presence, owner);
        assert(seq![template[at]] + template.subrange(at + 1, template.len() as int) =~= template.subrange(
            at,
            template.len() as int,
        ));
    } else {
        assert(template.subrange(at, template.len() as int) =~= Seq::<char>::empty());
    }
}

/// A rendered name is never longer than the platform accepts, and a name
/// that fits is not cut.
pub proof fn lemma_render_fits(template: Seq<char>, number: nat, presence: Presence, owner: Seq<char>)
    ensures
        render(template, number, presence, owner).len() <= MAX_NAME_LEN,
        render(template, number, presence, owner).is_prefix_of(
            expand(template, 0, decimal(number), seq![glyph(presence)], owner),
        ),
{
}

} // verus!
