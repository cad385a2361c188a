//! The menus as pure state machines: title, new game (seed and difficulty), and the pause
//! overlay. Each screen is a value that takes a key and answers with an action, and renders
//! itself as lines of text.

use vstd::prelude::*;
use crate::hash::{fnv1a64, spec_fnv1a64};
use crate::text::{digit_char, pop_char, push_char, push_digits, push_str, spec_digits};
use vstd::utf8::encode_utf8;

verus! {

/// A key as the menus see it.
#[derive(Debug, Clone, Copy, PartialEq, Eq, Structural)]
pub enum MenuKey {
    /// Up arrow.
    Up,
    /// Down arrow.
    Down,
    /// Left arrow.
    Left,
    /// Right arrow.
    Right,
    /// Enter or Space on a button.
    Enter,
    /// Escape.
    Escape,
    /// Backspace.
    Backspace,
    /// A printable character.
    Char(char),
}

/// The help line every screen ends with.
pub const HELP: &'static str = "Up/Down select   Left/Right change   Enter confirm   Esc back";

/// Whether a character is an ASCII capital.
pub open spec fn is_capital(c: char) -> bool {
    'A' <= c && c <= 'Z'
}

/// A camel-case name as words: a space before every capital but the first character.
pub open spec fn spec_words(name: Seq<char>) -> Seq<char>
    decreases name.len(),
{
    if name.len() == 0 {
        Seq::empty()
    } else {
        let c = name.last();
        let head = spec_words(name.drop_last());
        if name.len() > 1 && is_capital(c) {
            head.push(' ').push(c)
        } else {
            head.push(c)
        }
    }
}

/// Spacing out a name at most doubles it.
pub proof fn lemma_words_len(name: Seq<char>)
    ensures
        spec_words(name).len() <= 2 * name.len(),
    decreases name.len(),
{
    if name.len() > 0 {
        lemma_words_len(name.drop_last());
    }
}

/// Camel-case variant names as words: `LawfulGood` to `Lawful Good`.
pub fn words(name: &str) -> (r: String)
    ensures
        r@ == spec_words(name@),
{
    let n = name.unicode_len();
    let mut out = String::new();
    let mut i: usize = 0;
    while i < n
        invariant
            i <= n,
            n == name@.len(),
            out@ == spec_words(name@.take(i as int)),
        decreases n - i,
    {
        let c = name.get_char(i);
        if i > 0 && 'A' <= c && c <= 'Z' {
            push_char(&mut out, ' ');
        }
        push_char(&mut out, c);
        proof {
            assert(name@.take(i + 1).drop_last() =~= name@.take(i as int));
        }
        i = i + 1;
    }
    assert(name@.take(n as int) =~= name@);
    out
}

/// The cursor after an arrow on a list of `len` items: Left and Up step back, Right and Down
/// step on, both wrapping; any other key and an empty list leave it (an empty list at 0).
pub open spec fn spec_cycle(index: int, len: int, key: MenuKey) -> int {
    if len == 0 {
        0
    } else {
        match key {
            MenuKey::Left | MenuKey::Up => (index + len - 1) % len,
            MenuKey::Right | MenuKey::Down => (index + 1) % len,
            _ => index,
        }
    }
}

/// The cursor after an arrow on a list of `len` items.
pub fn cycle(index: usize, len: usize, key: MenuKey) -> (r: usize)
    ensures
        r == spec_cycle(index as int, len as int, key),
{
    if len == 0 {
        return 0;
    }
    let at = index % len;
    proof {
        let (i, n, a) = (index as int, len as int, at as int);
        vstd::arithmetic::div_mod::lemma_add_mod_noop(i, n - 1, n);
        vstd::arithmetic::div_mod::lemma_add_mod_noop(i, 1, n);
        vstd::arithmetic::div_mod::lemma_small_mod((n - 1) as nat, n as nat);
        if a == 0 {
            vstd::arithmetic::div_mod::lemma_small_mod((n - 1) as nat, n as nat);
        } else {
            vstd::arithmetic::div_mod::lemma_fundamental_div_mod_converse(a + n - 1, n, 1, a - 1);
        }
        if n > 1 {
            vstd::arithmetic::div_mod::lemma_small_mod(1, n as nat);
        }
        if a + 1 < n {
            vstd::arithmetic::div_mod::lemma_small_mod((a + 1) as nat, n as nat);
        } else {
            vstd::arithmetic::div_mod::lemma_mod_self_0(n);
        }
    }
    match key {
        MenuKey::Left | MenuKey::Up => {
            if at == 0 {
                len - 1
            } else {
                at - 1
            }
        },
        MenuKey::Right | MenuKey::Down => {
            if at + 1 == len {
                0
            } else {
                at + 1
            }
        },
        _ => index,
    }
}

/// A menu line with the cursor's mark: `> ` on the cursor's row, two spaces elsewhere.
pub open spec fn spec_mark(cursor: int, row: int, text: Seq<char>) -> Seq<char> {
    if cursor == row {
        seq!['>', ' '] + text
    } else {
        seq![' ', ' '] + text
    }
}

/// A menu line with the cursor's mark.
pub fn mark(cursor: usize, row: usize, text: String) -> (r: String)
    ensures
        r@ == spec_mark(cursor as int, row as int, text@),
{
    let mut out = String::new();
    if cursor == row {
        push_char(&mut out, '>');
    } else {
        push_char(&mut out, ' ');
    }
    push_char(&mut out, ' ');
    push_str(&mut out, text.as_str());
    proof {
        if cursor == row {
            assert(out@ =~= seq!['>', ' '] + text@);
        } else {
            assert(out@ =~= seq![' ', ' '] + text@);
        }
    }
    out
}

// ---------------------------------------------------------------- title

/// What the title screen asks for.
#[derive(Debug, Clone, Copy, PartialEq, Eq, Structural)]
pub enum TitleAction {
    /// Go to the new game screen.
    NewGame,
    /// Load the quick save.
    Load,
    /// Exit.
    Quit,
}

/// The title screen.
#[derive(Debug, Clone, Default, PartialEq, Eq)]
pub struct Title {
    /// Selected item.
    pub cursor: usize,
}

/// The title's items, in cursor order.
pub const TITLE_ITEMS: [&'static str; 3] = ["New game", "Load quick save", "Quit"];

impl Title {
    /// Handle a key: Up and Down move the cursor round the three items, Enter answers with
    /// the item's action (a cursor past the items quits), any other key does nothing.
    pub fn key(&mut self, key: MenuKey) -> (r: Option<TitleAction>)
        ensures
            match key {
                MenuKey::Up | MenuKey::Down => final(self).cursor == spec_cycle(
                    old(self).cursor as int,
                    3,
                    key,
                ) && r is None,
                MenuKey::Enter => final(self).cursor == old(self).cursor && r == Some(
                    if old(self).cursor == 0 {
                        TitleAction::NewGame
                    } else if old(self).cursor == 1 {
                        TitleAction::Load
                    } else {
                        TitleAction::Quit
                    },
                ),
                _ => final(self).cursor == old(self).cursor && r is None,
            },
    {
        match key {
            MenuKey::Up | MenuKey::Down => self.cursor = cycle(self.cursor, 3, key),
            MenuKey::Enter => {
                return Some(
                    match self.cursor {
                        0 => TitleAction::NewGame,
                        1 => TitleAction::Load,
                        _ => TitleAction::Quit,
                    },
                );
            },
            _ => {},
        }
        None
    }

    /// The screen as lines: the name, a blank, the three items marked at the cursor, a blank,
    /// the help line.
    pub fn lines(&self) -> (r: Vec<String>)
        ensures
            r@.len() == 7,
            r@[0]@ == "OMNIS"@,
            r@[1]@ == Seq::<char>::empty(),
            r@[2]@ == spec_mark(self.cursor as int, 0, "New game"@),
            r@[3]@ == spec_mark(self.cursor as int, 1, "Load quick save"@),
            r@[4]@ == spec_mark(self.cursor as int, 2, "Quit"@),
            r@[5]@ == Seq::<char>::empty(),
            r@[6]@ == HELP@,
    {
        let mut lines: Vec<String> = Vec::new();
        lines.push("OMNIS".to_owned());
        lines.push(String::new());
        lines.push(mark(self.cursor, 0, "New game".to_owned()));
        lines.push(mark(self.cursor, 1, "Load quick save".to_owned()));
        lines.push(mark(self.cursor, 2, "Quit".to_owned()));
        lines.push(String::new());
        lines.push(HELP.to_owned());
        lines
    }
}

/// "on" or "off".
pub fn on_off(flag: bool) -> (r: &'static str)
    ensures
        r@ == if flag {
            "on"@
        } else {
            "off"@
        },
{
    if flag {
        "on"
    } else {
        "off"
    }
}

// ---------------------------------------------------------------- settings

/// Where the game lets the party save.
#[derive(Debug, Clone, Copy, PartialEq, Eq, Structural)]
pub enum SaveRule {
    /// Anywhere.
    Anywhere,
    /// At inns, and through items and spells.
    Relief,
    /// At inns only.
    InnOnly,
}

/// The difficulty chosen for a new game.
#[derive(Debug, Clone, Copy, PartialEq, Eq, Structural)]
pub struct Settings {
    /// Where saving is allowed.
    pub save_rule: SaveRule,
    /// Whether a fallen member stays dead.
    pub permadeath: bool,
    /// Whether the world accepts dev commands.
    pub devtools: bool,
}

impl Default for Settings {
    /// Save anywhere, no permadeath, no dev commands.
    fn default() -> (r: Settings)
        ensures
            r == (Settings { save_rule: SaveRule::Anywhere, permadeath: false, devtools: false }),
    {
        Settings { save_rule: SaveRule::Anywhere, permadeath: false, devtools: false }
    }
}

/// The save rule as the screens name it.
pub open spec fn spec_rule_label(rule: SaveRule) -> Seq<char> {
    match rule {
        SaveRule::Anywhere => "Anywhere"@,
        SaveRule::Relief => "Inns, items, and spells"@,
        SaveRule::InnOnly => "Inns only"@,
    }
}

/// The save rule as the screens name it.
pub fn rule_label(rule: SaveRule) -> (r: &'static str)
    ensures
        r@ == spec_rule_label(rule),
{
    match rule {
        SaveRule::Anywhere => "Anywhere",
        SaveRule::Relief => "Inns, items, and spells",
        SaveRule::InnOnly => "Inns only",
    }
}

/// The save rule's variant name.
pub open spec fn spec_rule_name(rule: SaveRule) -> Seq<char> {
    match rule {
        SaveRule::Anywhere => "Anywhere"@,
        SaveRule::Relief => "Relief"@,
        SaveRule::InnOnly => "InnOnly"@,
    }
}

/// The save rule's variant name, as the pause overlay shows it.
pub fn rule_name(rule: SaveRule) -> (r: &'static str)
    ensures
        r@ == spec_rule_name(rule),
{
    match rule {
        SaveRule::Anywhere => "Anywhere",
        SaveRule::Relief => "Relief",
        SaveRule::InnOnly => "InnOnly",
    }
}

// ---------------------------------------------------------------- new game

/// What the new game screen asks for.
#[derive(Debug, Clone, Copy, PartialEq, Eq, Structural)]
pub enum NewGameAction {
    /// Start with the form's seed and settings.
    Start,
    /// Back to the title.
    Back,
}

/// Seed text plus the difficulty controls.
#[derive(Debug, Clone, Default, PartialEq, Eq)]
pub struct NewGameForm {
    /// What was typed; blank means a random seed.
    pub seed_text: String,
    /// The difficulty.
    pub settings: Settings,
    /// Selected row: seed, save rule, permadeath, start, back.
    pub cursor: usize,
}

/// The save rules in the order the form cycles them.
pub const RULES: [SaveRule; 3] = [SaveRule::Anywhere, SaveRule::Relief, SaveRule::InnOnly];

/// Whether a character is white space as Unicode counts it.
pub open spec fn spec_is_whitespace(c: char) -> bool {
    let v = c as u32;
    ||| 0x09 <= v <= 0x0D
    ||| v == 0x20
    ||| v == 0x85
    ||| v == 0xA0
    ||| v == 0x1680
    ||| 0x2000 <= v <= 0x200A
    ||| v == 0x2028
    ||| v == 0x2029
    ||| v == 0x202F
    ||| v == 0x205F
    ||| v == 0x3000
}

fn is_whitespace(c: char) -> (r: bool)
    ensures
        r == spec_is_whitespace(c),
{
    let v = c as u32;
    (0x09 <= v && v <= 0x0D) || v == 0x20 || v == 0x85 || v == 0xA0 || v == 0x1680 || (0x2000 <= v
        && v <= 0x200A) || v == 0x2028 || v == 0x2029 || v == 0x202F || v == 0x205F || v == 0x3000
}

/// A text without its leading white space.
pub open spec fn spec_trim_start(s: Seq<char>) -> Seq<char>
    decreases s.len(),
{
    if s.len() > 0 && spec_is_whitespace(s[0]) {
        spec_trim_start(s.drop_first())
    } else {
        s
    }
}

/// A text without its trailing white space.
pub open spec fn spec_trim_end(s: Seq<char>) -> Seq<char>
    decreases s.len(),
{
    if s.len() > 0 && spec_is_whitespace(s.last()) {
        spec_trim_end(s.drop_last())
    } else {
        s
    }
}

/// A text without white space at either end.
pub open spec fn spec_trim(s: Seq<char>) -> Seq<char> {
    spec_trim_end(spec_trim_start(s))
}

proof fn lemma_trim_start(s: Seq<char>, k: int)
    requires
        0 <= k <= s.len(),
        forall|i: int| 0 <= i < k ==> spec_is_whitespace(#[trigger] s[i]),
        k == s.len() || !spec_is_whitespace(s[k]),
    ensures
        spec_trim_start(s) == s.skip(k),
    decreases k,
{
    if k == 0 {
        assert(s.skip(0) =~= s);
    } else {
        assert(spec_is_whitespace(s[0]));
        lemma_trim_start(s.drop_first(), k - 1);
        assert(s.drop_first().skip(k - 1) =~= s.skip(k));
    }
}

proof fn lemma_trim_end(s: Seq<char>, j: int)
    requires
        0 <= j <= s.len(),
        forall|i: int| j <= i < s.len() ==> spec_is_whitespace(#[trigger] s[i]),
        j == 0 || !spec_is_whitespace(s[j - 1]),
    ensures
        spec_trim_end(s) == s.take(j),
    decreases s.len() - j,
{
    if j == s.len() {
        assert(s.take(j) =~= s);
    } else {
        assert(spec_is_whitespace(s.last()));
        lemma_trim_end(s.drop_last(), j);
        assert(s.drop_last().take(j) =~= s.take(j));
    }
}

/// A text without white space at either end.
pub(crate) fn trim(text: &str) -> (r: String)
    ensures
        r@ == spec_trim(text@),
{
    let n = text.unicode_len();
    let mut start: usize = 0;
    while start < n && is_whitespace(text.get_char(start))
        invariant
            start <= n,
            n == text@.len(),
            forall|i: int| 0 <= i < start ==> spec_is_whitespace(#[trigger] text@[i]),
        decreases n - start,
    {
        start = start + 1;
    }
    proof {
        lemma_trim_start(text@, start as int);
    }
    let mut end: usize = n;
    while end > start && is_whitespace(text.get_char(end - 1))
        invariant
            start <= end <= n,
            n == text@.len(),
            forall|i: int| end <= i < n ==> spec_is_whitespace(#[trigger] text@[i]),
        decreases end,
    {
        end = end - 1;
    }
    let ghost rest = text@.skip(start as int);
    proof {
        assert forall|i: int| end - start <= i < rest.len() implies spec_is_whitespace(#[trigger] rest[i]) by {
            assert(rest[i] == text@[start + i]);
        }
        if end > start {
            assert(rest[end - start - 1] == text@[end - 1]);
        }
        lemma_trim_end(rest, end - start);
    }
    let mut out = String::new();
    let mut i: usize = start;
    while i < end
        invariant
            start <= i <= end,
            end <= n,
            n == text@.len(),
            out@ == text@.subrange(start as int, i as int),
        decreases end - i,
    {
        push_char(&mut out, text.get_char(i));
        proof {
            assert(text@.subrange(start as int, i + 1) =~= text@.subrange(start as int, i as int).push(text@[i as int]));
        }
        i = i + 1;
    }
    proof {
        assert(text@.subrange(start as int, end as int) =~= rest.take(end - start));
    }
    out
}

/// The value of a run of decimal digits, most significant first.
pub open spec fn spec_digits_value(s: Seq<char>) -> nat
    decreases s.len(),
{
    if s.len() == 0 {
        0
    } else {
        spec_digits_value(s.drop_last()) * 10 + ((s.last() as u32) - ('0' as u32)) as nat
    }
}

/// Whether a character is a decimal digit.
pub open spec fn is_digit(c: char) -> bool {
    '0' <= c && c <= '9'
}

/// Whether every character of a run is a decimal digit.
pub open spec fn all_digits(s: Seq<char>) -> bool {
    forall|i: int| 0 <= i < s.len() ==> is_digit(#[trigger] s[i])
}

/// A text read as an unsigned 64-bit number: an optional `+`, then one or more digits, and
/// no more than `u64::MAX`; anything else reads as nothing.
pub open spec fn spec_parse_u64(s: Seq<char>) -> Option<u64> {
    let digits = if s.len() > 0 && s[0] == '+' {
        s.drop_first()
    } else {
        s
    };
    if digits.len() == 0 {
        None
    } else if !all_digits(digits) {
        None
    } else if spec_digits_value(digits) > u64::MAX {
        None
    } else {
        Some(spec_digits_value(digits) as u64)
    }
}

proof fn lemma_digits_value_grows(s: Seq<char>, i: int)
    requires
        0 <= i <= s.len(),
        forall|k: int| 0 <= k < s.len() ==> is_digit(#[trigger] s[k]),
    ensures
        spec_digits_value(s.take(i)) <= spec_digits_value(s),
    decreases s.len() - i,
{
    if i < s.len() {
        lemma_digits_value_grows(s.drop_last(), i);
        assert(s.drop_last().take(i) =~= s.take(i));
    } else {
        assert(s.take(i) =~= s);
    }
}

/// A text read as an unsigned 64-bit number.
pub(crate) fn parse_u64(text: &str) -> (r: Option<u64>)
    ensures
        r == spec_parse_u64(text@),
{
    let n = text.unicode_len();
    let start: usize = if n > 0 && text.get_char(0) == '+' {
        1
    } else {
        0
    };
    let ghost digits = if text@.len() > 0 && text@[0] == '+' {
        text@.drop_first()
    } else {
        text@
    };
    proof {
        assert(digits =~= text@.skip(start as int));
    }
    if start == n {
        return None;
    }
    let mut value: u64 = 0;
    let mut i: usize = start;
    while i < n
        invariant
            start <= i <= n,
            n == text@.len(),
            start < n,
            digits == text@.skip(start as int),
            digits == (if text@.len() > 0 && text@[0] == '+' { text@.drop_first() } else { text@ }),
            forall|k: int| start <= k < i ==> is_digit(#[trigger] text@[k]),
            value == spec_digits_value(digits.take(i - start)),
        decreases n - i,
    {
        let c = text.get_char(i);
        proof {
            assert(digits[i - start] == text@[i as int]);
        }
        if !('0' <= c && c <= '9') {
            proof {
                assert(!is_digit(digits[i - start]));
                assert(!all_digits(digits));
            }
            return None;
        }
        let d = (c as u32 - '0' as u32) as u64;
        let ghost next_val = spec_digits_value(digits.take(i - start + 1));
        proof {
            assert(digits.take(i - start + 1).drop_last() =~= digits.take(i - start));
            assert(digits.take(i - start + 1).last() == c);
            assert(next_val == value * 10 + d);
        }
        let tens = value.checked_mul(10);
        let next = match tens {
            Some(t) => t.checked_add(d),
            None => None,
        };
        match next {
            Some(v) => {
                value = v;
            },
            None => {
                proof {
                    assert(next_val > u64::MAX);
                    if all_digits(digits) {
                        lemma_digits_value_grows(digits, i - start + 1);
                    }
                }
                return None;
            },
        }
        i = i + 1;
    }
    proof {
        assert(digits.take(n - start) =~= digits);
        assert forall|k: int| 0 <= k < digits.len() implies is_digit(#[trigger] digits[k]) by {
            assert(digits[k] == text@[start + k]);
        }
        assert(all_digits(digits));
    }
    Some(value)
}

/// The seed a form's text gives: blank (after trimming) is `entropy`, a number as typed,
/// any other text hashed.
pub open spec fn spec_seed(text: Seq<char>, entropy: u64) -> u64 {
    let t = spec_trim(text);
    if t.len() == 0 {
        entropy
    } else {
        match spec_parse_u64(t) {
            Some(n) => n,
            None => spec_fnv1a64(encode_utf8(t)),
        }
    }
}

/// The save rule one step round from another.
pub open spec fn spec_next_rule(rule: SaveRule, key: MenuKey) -> SaveRule {
    let at = match rule {
        SaveRule::Anywhere => 0,
        SaveRule::Relief => 1,
        SaveRule::InnOnly => 2,
    };
    RULES[spec_cycle(at, 3, key)]
}

/// The form's lines: the title, the seed with its caret, the save rule and permadeath
/// between arrows, start, back, the help line.
pub open spec fn spec_new_game_lines(form: NewGameForm) -> Seq<Seq<char>> {
    let c = form.cursor as int;
    seq![
        "NEW GAME"@,
        Seq::empty(),
        spec_mark(c, 0, "Seed: "@ + form.seed_text@ + "_   (blank for random; words are hashed)"@),
        spec_mark(c, 1, "Saving: < "@ + spec_rule_label(form.settings.save_rule) + " >"@),
        spec_mark(c, 2, "Permadeath: < "@ + (if form.settings.permadeath { "On"@ } else { "Off"@ }) + " >"@),
        spec_mark(c, 3, "Start"@),
        spec_mark(c, 4, "Back"@),
        Seq::empty(),
        HELP@,
    ]
}

impl NewGameForm {
    /// The seed: a number as typed, any other text hashed, blank as `entropy`.
    pub fn seed(&self, entropy: u64) -> (r: u64)
        ensures
            r == spec_seed(self.seed_text@, entropy),
    {
        let text = trim(self.seed_text.as_str());
        if text.unicode_len() == 0 {
            entropy
        } else {
            match parse_u64(text.as_str()) {
                Some(n) => n,
                None => fnv1a64(text.as_str().as_bytes()),
            }
        }
    }

    /// Handle a key: Up and Down move round the five rows; Left and Right cycle the save
    /// rule on its row and flip permadeath on its row; a character is typed into the seed
    /// while it is shorter than 32 bytes and Backspace takes one off, on the seed row; Enter
    /// starts or goes back on those rows; Escape goes back.
    pub fn key(&mut self, key: MenuKey) -> (r: Option<NewGameAction>)
        ensures
            match key {
                MenuKey::Up | MenuKey::Down => final(self).cursor == spec_cycle(old(self).cursor as int, 5, key)
                    && final(self).seed_text == old(self).seed_text && final(self).settings == old(self).settings
                    && r is None,
                MenuKey::Left | MenuKey::Right => final(self).cursor == old(self).cursor && final(self).seed_text
                    == old(self).seed_text && r is None && final(self).settings == if old(self).cursor == 1 {
                    Settings { save_rule: spec_next_rule(old(self).settings.save_rule, key), ..old(self).settings }
                } else if old(self).cursor == 2 {
                    Settings { permadeath: !old(self).settings.permadeath, ..old(self).settings }
                } else {
                    old(self).settings
                },
                MenuKey::Char(c) => final(self).cursor == old(self).cursor && final(self).settings
                    == old(self).settings && r is None && final(self).seed_text@ == if old(self).cursor == 0
                    && encode_utf8(old(self).seed_text@).len() < 32 {
                    old(self).seed_text@.push(c)
                } else {
                    old(self).seed_text@
                },
                MenuKey::Backspace => final(self).cursor == old(self).cursor && final(self).settings
                    == old(self).settings && r is None && final(self).seed_text@ == if old(self).cursor == 0
                    && old(self).seed_text@.len() > 0 {
                    old(self).seed_text@.drop_last()
                } else {
                    old(self).seed_text@
                },
                MenuKey::Enter => final(self).cursor == old(self).cursor && final(self).settings
                    == old(self).settings && final(self).seed_text == old(self).seed_text && r == if old(
                    self,
                ).cursor == 3 {
                    Some(NewGameAction::Start)
                } else if old(self).cursor == 4 {
                    Some(NewGameAction::Back)
                } else {
                    None
                },
                MenuKey::Escape => final(self).cursor == old(self).cursor && final(self).settings
                    == old(self).settings && final(self).seed_text == old(self).seed_text && r == Some(
                    NewGameAction::Back,
                ),
            },
    {
        match key {
            MenuKey::Up | MenuKey::Down => {
                self.cursor = cycle(self.cursor, 5, key);
                None
            },
            MenuKey::Left | MenuKey::Right => {
                if self.cursor == 1 {
                    let at: usize = match self.settings.save_rule {
                        SaveRule::Anywhere => 0,
                        SaveRule::Relief => 1,
                        SaveRule::InnOnly => 2,
                    };
                    self.settings.save_rule = RULES[cycle(at, 3, key)];
                } else if self.cursor == 2 {
                    self.settings.permadeath = !self.settings.permadeath;
                }
                None
            },
            MenuKey::Char(c) => {
                if self.cursor == 0 && self.seed_text.as_str().as_bytes().len() < 32 {
                    push_char(&mut self.seed_text, c);
                }
                None
            },
            MenuKey::Backspace => {
                if self.cursor == 0 {
                    pop_char(&mut self.seed_text);
                }
                None
            },
            MenuKey::Enter => {
                if self.cursor == 3 {
                    Some(NewGameAction::Start)
                } else if self.cursor == 4 {
                    Some(NewGameAction::Back)
                } else {
                    None
                }
            },
            MenuKey::Escape => Some(NewGameAction::Back),
        }
    }

    /// The screen as lines.
    pub fn lines(&self) -> (r: Vec<String>)
        ensures
            r@.len() == 9,
            forall|i: int| 0 <= i < 9 ==> #[trigger] r@[i]@ == spec_new_game_lines(*self)[i],
    {
        let mut seed = "Seed: ".to_owned();
        push_str(&mut seed, self.seed_text.as_str());
        push_str(&mut seed, "_   (blank for random; words are hashed)");
        let mut saving = "Saving: < ".to_owned();
        push_str(&mut saving, rule_label(self.settings.save_rule));
        push_str(&mut saving, " >");
        let mut permadeath = "Permadeath: < ".to_owned();
        push_str(&mut permadeath, if self.settings.permadeath { "On" } else { "Off" });
        push_str(&mut permadeath, " >");
        let mut lines: Vec<String> = Vec::new();
        lines.push("NEW GAME".to_owned());
        lines.push(String::new());
        lines.push(mark(self.cursor, 0, seed));
        lines.push(mark(self.cursor, 1, saving));
        lines.push(mark(self.cursor, 2, permadeath));
        lines.push(mark(self.cursor, 3, "Start".to_owned()));
        lines.push(mark(self.cursor, 4, "Back".to_owned()));
        lines.push(String::new());
        lines.push(HELP.to_owned());
        proof {
            assert forall|i: int| 0 <= i < 9 implies #[trigger] lines@[i]@ == spec_new_game_lines(*self)[i] by {}
        }
        lines
    }
}

// ---------------------------------------------------------------- pause

/// What the pause overlay asks for.
#[derive(Debug, Clone, Copy, PartialEq, Eq, Structural)]
pub enum PauseAction {
    /// Back to the world.
    Resume,
    /// Write the quick save.
    Save,
    /// Read the quick save.
    Load,
    /// Open the character sheet.
    Sheet,
    /// Open the debug menu.
    Debug,
    /// Drop the game and return to the title.
    QuitToTitle,
    /// Exit.
    Quit,
}

/// The pause overlay's items, in cursor order.
pub const PAUSE_ITEMS: [&'static str; 7] = [
    "Resume",
    "Save",
    "Load",
    "Character sheet",
    "Debug menu",
    "Quit to title",
    "Quit",
];

/// The row of the debug item.
pub const PAUSE_DEBUG: usize = 4;

/// The action of each pause item, in cursor order.
pub open spec fn spec_pause_action(i: int) -> PauseAction {
    if i == 0 {
        PauseAction::Resume
    } else if i == 1 {
        PauseAction::Save
    } else if i == 2 {
        PauseAction::Load
    } else if i == 3 {
        PauseAction::Sheet
    } else if i == 4 {
        PauseAction::Debug
    } else if i == 5 {
        PauseAction::QuitToTitle
    } else {
        PauseAction::Quit
    }
}

/// The pause overlay: the settings, read-only, and the items.
#[derive(Debug, Clone, Default, PartialEq, Eq)]
pub struct Pause {
    /// Selected item.
    pub cursor: usize,
}

impl Pause {
    /// Handle a key: Up and Down move the cursor round the seven items, Escape resumes, Enter
    /// answers with the item's action (nothing for a cursor past the items), any other key
    /// does nothing.
    pub fn key(&mut self, key: MenuKey) -> (r: Option<PauseAction>)
        ensures
            match key {
                MenuKey::Up | MenuKey::Down => final(self).cursor == spec_cycle(
                    old(self).cursor as int,
                    7,
                    key,
                ) && r is None,
                MenuKey::Escape => final(self).cursor == old(self).cursor && r == Some(
                    PauseAction::Resume,
                ),
                MenuKey::Enter => final(self).cursor == old(self).cursor && r == if old(
                    self,
                ).cursor < 7 {
                    Some(spec_pause_action(old(self).cursor as int))
                } else {
                    None::<PauseAction>
                },
                _ => final(self).cursor == old(self).cursor && r is None,
            },
    {
        match key {
            MenuKey::Up | MenuKey::Down => {
                self.cursor = cycle(self.cursor, 7, key);
            },
            MenuKey::Escape => return Some(PauseAction::Resume),
            MenuKey::Enter => {
                return match self.cursor {
                    0 => Some(PauseAction::Resume),
                    1 => Some(PauseAction::Save),
                    2 => Some(PauseAction::Load),
                    3 => Some(PauseAction::Sheet),
                    4 => Some(PauseAction::Debug),
                    5 => Some(PauseAction::QuitToTitle),
                    6 => Some(PauseAction::Quit),
                    _ => None,
                };
            },
            _ => {},
        }
        None
    }
}

/// "on" or "off", as the spec sees it.
pub open spec fn spec_on_off(flag: bool) -> Seq<char> {
    if flag {
        "on"@
    } else {
        "off"@
    }
}

/// The pause overlay's lines: the title, the seed, the settings read-only, a blank, the
/// seven items marked at the cursor, a blank, the help line.
pub open spec fn spec_pause_line(cursor: int, settings: Settings, seed: u64, i: int) -> Seq<char> {
    if i == 0 {
        "PAUSED"@
    } else if i == 1 {
        "Seed "@ + spec_digits(seed as nat)
    } else if i == 2 {
        "Saving: "@ + spec_rule_name(settings.save_rule) + "   Permadeath: "@ + spec_on_off(settings.permadeath)
            + "   Devtools: "@ + spec_on_off(settings.devtools)
    } else if 4 <= i < 11 {
        spec_mark(cursor, i - 4, PAUSE_ITEMS[i - 4]@)
    } else if i == 12 {
        "Up/Down select   Enter confirm   Esc resume"@
    } else {
        Seq::empty()
    }
}

impl Pause {
    /// The overlay as lines.
    pub fn lines(&self, settings: Settings, seed: u64) -> (r: Vec<String>)
        ensures
            r@.len() == 13,
            forall|i: int| 0 <= i < 13 ==> #[trigger] r@[i]@ == spec_pause_line(self.cursor as int, settings, seed, i),
    {
        let mut lines: Vec<String> = Vec::new();
        lines.push("PAUSED".to_owned());
        let mut seed_line = "Seed ".to_owned();
        push_digits(&mut seed_line, seed);
        lines.push(seed_line);
        let mut saving = "Saving: ".to_owned();
        push_str(&mut saving, rule_name(settings.save_rule));
        push_str(&mut saving, "   Permadeath: ");
        push_str(&mut saving, on_off(settings.permadeath));
        push_str(&mut saving, "   Devtools: ");
        push_str(&mut saving, on_off(settings.devtools));
        lines.push(saving);
        lines.push(String::new());
        let mut i: usize = 0;
        while i < 7
            invariant
                i <= 7,
                lines@.len() == 4 + i,
                forall|k: int| 0 <= k < 4 + i ==> #[trigger] lines@[k]@ == spec_pause_line(self.cursor as int, settings, seed, k),
            decreases 7 - i,
        {
            lines.push(mark(self.cursor, i, PAUSE_ITEMS[i].to_owned()));
            i = i + 1;
        }
        lines.push(String::new());
        lines.push("Up/Down select   Enter confirm   Esc resume".to_owned());
        proof {
            assert forall|k: int| 0 <= k < 13 implies #[trigger] lines@[k]@ == spec_pause_line(self.cursor as int, settings, seed, k) by {}
        }
        lines
    }
}

/// An arrow keeps a cursor on a non-empty list inside it.
pub proof fn lemma_cycle_in_range(index: int, len: int, key: MenuKey)
    requires
        0 <= index < len,
    ensures
        0 <= spec_cycle(index, len, key) < len,
{
}

/// Down undoes Up and Up undoes Down, on a cursor inside a non-empty list; so do Right and
/// Left.
pub proof fn lemma_cycle_undo(index: int, len: int)
    requires
        0 <= index < len,
    ensures
        spec_cycle(spec_cycle(index, len, MenuKey::Up), len, MenuKey::Down) == index,
        spec_cycle(spec_cycle(index, len, MenuKey::Down), len, MenuKey::Up) == index,
        spec_cycle(spec_cycle(index, len, MenuKey::Left), len, MenuKey::Right) == index,
        spec_cycle(spec_cycle(index, len, MenuKey::Right), len, MenuKey::Left) == index,
{
    let up = (index + len - 1) % len;
    let down = (index + 1) % len;
    if index == 0 {
        vstd::arithmetic::div_mod::lemma_small_mod((len - 1) as nat, len as nat);
        vstd::arithmetic::div_mod::lemma_mod_self_0(len);
    } else {
        vstd::arithmetic::div_mod::lemma_fundamental_div_mod_converse(index + len - 1, len, 1, index - 1);
        vstd::arithmetic::div_mod::lemma_small_mod(index as nat, len as nat);
    }
    if index + 1 < len {
        vstd::arithmetic::div_mod::lemma_small_mod((index + 1) as nat, len as nat);
        vstd::arithmetic::div_mod::lemma_fundamental_div_mod_converse(index + 1 + len - 1, len, 1, index);
    } else {
        vstd::arithmetic::div_mod::lemma_mod_self_0(len);
        vstd::arithmetic::div_mod::lemma_small_mod((len - 1) as nat, len as nat);
    }
    assert(spec_cycle(index, len, MenuKey::Up) == up);
    assert(spec_cycle(index, len, MenuKey::Down) == down);
    assert(0 <= up < len && 0 <= down < len);
    if up + 1 < len {
        vstd::arithmetic::div_mod::lemma_small_mod((up + 1) as nat, len as nat);
    } else {
        vstd::arithmetic::div_mod::lemma_mod_self_0(len);
    }
    if down == 0 {
        vstd::arithmetic::div_mod::lemma_small_mod((len - 1) as nat, len as nat);
    } else {
        vstd::arithmetic::div_mod::lemma_fundamental_div_mod_converse(down + len - 1, len, 1, down - 1);
    }
}

/// A decimal digit's character is a digit worth the digit.
proof fn lemma_digit_value(d: int)
    requires
        0 <= d < 10,
    ensures
        is_digit(digit_char(d)),
        (digit_char(d) as u32) - ('0' as u32) == d,
{
}

/// A number's digits are digits, and read back as the number.
proof fn lemma_digits_read_back(n: nat)
    ensures
        spec_digits(n).len() >= 1,
        all_digits(spec_digits(n)),
        spec_digits_value(spec_digits(n)) == n,
    decreases n,
{
    let s = spec_digits(n);
    if n >= 10 {
        let q = (n / 10) as nat;
        lemma_digits_read_back(q);
        assert(s == spec_digits(q).push(digit_char((n % 10) as int)));
        assert(s.drop_last() =~= spec_digits(q));
        lemma_digit_value((n % 10) as int);
        assert(spec_digits_value(s) == spec_digits_value(spec_digits(q)) * 10 + (n % 10));
        assert forall|i: int| 0 <= i < s.len() implies is_digit(#[trigger] s[i]) by {
            if i < s.len() - 1 {
                assert(s[i] == spec_digits(q)[i]);
            }
        }
    } else {
        assert(s.drop_last() =~= Seq::<char>::empty());
        lemma_digit_value(n as int);
        assert(spec_digits_value(s) == spec_digits_value(Seq::<char>::empty()) * 10 + n);
    }
}

/// A number typed as the seed is the seed: its decimal digits read back as it, whatever the
/// entropy.
pub proof fn lemma_seed_reads_a_number_back(n: u64, entropy: u64)
    ensures
        spec_seed(spec_digits(n as nat), entropy) == n,
{
    let s = spec_digits(n as nat);
    lemma_digits_read_back(n as nat);
    assert(is_digit(s[0]) && is_digit(s.last()));
    assert(spec_trim_start(s) == s);
    assert(spec_trim_end(s) == s);
    assert(spec_trim(s) == s);
}

} // verus!
