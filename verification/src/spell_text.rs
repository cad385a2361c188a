//! Spell events as text: casts, healing, effects settling and ending, concentration, and the
//! auto-cast switch. Sits beside the combat text, which pairs attacks with their damage and
//! renders checks; this module renders what casting adds.

use vstd::prelude::*;
use crate::combat_text::{
    CombatEvent, EffectEnd, EffectTarget, Names, opt_line_is, same, spec_traces, push_traces, starts_with,
    ends_with, RollTrace,
};
use crate::text::{push_char, push_str, push_digits, push_decimal, spec_digits, spec_decimal, Line};

verus! {

/// What a cast cost: `free`, `1 pt`, `3 pt`.
pub open spec fn spec_cost(points: u32) -> Seq<char> {
    if points == 0 {
        "free"@
    } else if points == 1 {
        "1 pt"@
    } else {
        spec_digits(points as nat) + " pt"@
    }
}

/// Whom an effect is on, as the end of a sentence.
pub open spec fn spec_whom(names: Names, target: EffectTarget) -> Seq<char> {
    match target {
        EffectTarget::Member(id) => names.spec_member(id),
        EffectTarget::Party => "the party"@,
    }
}

/// One line for a spell event, or none for the events this module does not render.
pub open spec fn spec_spell(event: CombatEvent, names: Names) -> Option<(Seq<char>, Seq<char>)> {
    match event {
        CombatEvent::SpellCast { caster, spell, points, components } => Some(
            same(
                names.spec_member(caster) + " casts "@ + names.spec_spell(spell) + " ("@ + spec_cost(points)
                    + (if components == 0 {
                    Seq::empty()
                } else {
                    ", "@ + spec_digits(components as nat) + " component(s)"@
                }) + seq![')'],
            ),
        ),
        CombatEvent::Healed { target, rolls, amount, hp } => {
            let outcome = names.spec_member(target) + " regains "@ + spec_decimal(amount as int)
                + " hp, now "@ + spec_decimal(hp as int);
            if rolls@.len() == 0 {
                Some(same(outcome))
            } else {
                Some((outcome + " ("@ + spec_traces(rolls@, seq![' ']) + seq![')'], outcome))
            }
        },
        CombatEvent::EffectApplied { target, spell } => Some(
            same(
                match target {
                    EffectTarget::Member(id) => names.spec_spell(spell) + " settles on "@
                        + names.spec_member(id),
                    EffectTarget::Party => names.spec_spell(spell) + " lights the party's way"@,
                },
            ),
        ),
        CombatEvent::EffectEnded { target, spell, why } => {
            let what = names.spec_spell(spell);
            let whom = spec_whom(names, target);
            Some(
                same(
                    match why {
                        EffectEnd::Expired => what + " fades from "@ + whom,
                        EffectEnd::Consumed => what + " is spent on "@ + whom,
                        EffectEnd::Concentration => what + " leaves "@ + whom,
                        EffectEnd::TurnBegan => what + " lapses on "@ + whom,
                        EffectEnd::FightOver => what + " ends with the fight for "@ + whom,
                    },
                ),
            )
        },
        CombatEvent::Concentration { caster, spell } => Some(
            same(names.spec_member(caster) + " lets "@ + names.spec_spell(spell) + " go"@),
        ),
        CombatEvent::AutoCast { member, spell, on } => Some(
            same(
                names.spec_member(member) + " will "@ + (if on {
                    Seq::empty()
                } else {
                    "no longer "@
                }) + "cast "@ + names.spec_spell(spell) + " on their own"@,
            ),
        ),
        _ => None,
    }
}

/// One line for a spell event, or `None` for events this module does not render.
pub fn spell_line(event: &CombatEvent, names: &Names) -> (r: Option<Line>)
    ensures
        opt_line_is(r, spec_spell(*event, *names)),
{
    let mut text = String::new();
    match event {
        CombatEvent::SpellCast { caster, spell, points, components } => {
            names.push_member(&mut text, *caster);
            push_str(&mut text, " casts ");
            names.push_spell(&mut text, *spell);
            push_str(&mut text, " (");
            if *points == 0 {
                push_str(&mut text, "free");
            } else if *points == 1 {
                push_str(&mut text, "1 pt");
            } else {
                push_digits(&mut text, *points as u64);
                push_str(&mut text, " pt");
            }
            if *components != 0 {
                push_str(&mut text, ", ");
                push_digits(&mut text, *components);
                push_str(&mut text, " component(s)");
            }
            push_char(&mut text, ')');
        },
        CombatEvent::Healed { target, rolls, amount, hp } => {
            names.push_member(&mut text, *target);
            push_str(&mut text, " regains ");
            push_decimal(&mut text, *amount);
            push_str(&mut text, " hp, now ");
            push_decimal(&mut text, *hp);
            if rolls.len() > 0 {
                let ghost t = spec_spell(*event, *names)->0;
                assert(text@ =~= t.1);
                let mut long = text.clone();
                push_str(&mut long, " (");
                push_traces(&mut long, rolls, " ");
                push_char(&mut long, ')');
                assert(" "@ =~= seq![' ']) by {
                    reveal_strlit(" ");
                }
                assert(long@ =~= t.0);
                return Some(Line::new(long, text));
            }
        },
        CombatEvent::EffectApplied { target, spell } => {
            names.push_spell(&mut text, *spell);
            match target {
                EffectTarget::Member(id) => {
                    push_str(&mut text, " settles on ");
                    names.push_member(&mut text, *id);
                },
                EffectTarget::Party => push_str(&mut text, " lights the party's way"),
            }
        },
        CombatEvent::EffectEnded { target, spell, why } => {
            names.push_spell(&mut text, *spell);
            match why {
                EffectEnd::Expired => push_str(&mut text, " fades from "),
                EffectEnd::Consumed => push_str(&mut text, " is spent on "),
                EffectEnd::Concentration => push_str(&mut text, " leaves "),
                EffectEnd::TurnBegan => push_str(&mut text, " lapses on "),
                EffectEnd::FightOver => push_str(&mut text, " ends with the fight for "),
            }
            match target {
                EffectTarget::Member(id) => names.push_member(&mut text, *id),
                EffectTarget::Party => push_str(&mut text, "the party"),
            }
        },
        CombatEvent::Concentration { caster, spell } => {
            names.push_member(&mut text, *caster);
            push_str(&mut text, " lets ");
            names.push_spell(&mut text, *spell);
            push_str(&mut text, " go");
        },
        CombatEvent::AutoCast { member, spell, on } => {
            names.push_member(&mut text, *member);
            push_str(&mut text, " will ");
            if !*on {
                push_str(&mut text, "no longer ");
            }
            push_str(&mut text, "cast ");
            names.push_spell(&mut text, *spell);
            push_str(&mut text, " on their own");
        },
        _ => {
            return None;
        },
    }
    assert(text@ =~= (spec_spell(*event, *names)->0).0);
    Some(Line::same(text))
}

/// The auto-cast switch's line says which way it was set: `will cast` when turned on,
/// `will no longer cast` when turned off, the long line and the short one alike.
pub proof fn lemma_auto_cast_line_says_on_or_off(member: u64, spell: u32, on: bool, names: Names)
    ensures
        ({
            let t = spec_spell(CombatEvent::AutoCast { member, spell, on }, names)->0;
            let who = names.spec_member(member);
            let what = names.spec_spell(spell);
            &&& t.0 == t.1
            &&& on ==> t.0 == who + " will cast "@ + what + " on their own"@
            &&& !on ==> t.0 == who + " will no longer cast "@ + what + " on their own"@
        }),
{
    reveal_strlit(" will ");
    reveal_strlit("no longer ");
    reveal_strlit("cast ");
    reveal_strlit(" will cast ");
    reveal_strlit(" will no longer cast ");
    let t = spec_spell(CombatEvent::AutoCast { member, spell, on }, names)->0;
    let who = names.spec_member(member);
    let what = names.spec_spell(spell);
    if on {
        assert(t.0 =~= who + " will cast "@ + what + " on their own"@);
    } else {
        assert(t.0 =~= who + " will no longer cast "@ + what + " on their own"@);
    }
}

/// A cast's line names the caster and the spell and then the cost: `free` for no points,
/// `1 pt` for one, the count and `pt` for more; consumed components are counted after it.
pub proof fn lemma_cast_line_counts_the_cost(caster: u64, spell: u32, points: u32, components: u64, names: Names)
    ensures
        ({
            let t = spec_spell(CombatEvent::SpellCast { caster, spell, points, components }, names)->0;
            let head = names.spec_member(caster) + " casts "@ + names.spec_spell(spell);
            &&& t.0 == t.1
            &&& points == 0 && components == 0 ==> t.0 == head + " (free)"@
            &&& points == 1 && components == 0 ==> t.0 == head + " (1 pt)"@
            &&& points >= 2 && components == 0 ==> t.0 == head + " ("@ + spec_digits(points as nat) + " pt)"@
            &&& components > 0 ==> starts_with(t.0, head) && ends_with(
                t.0,
                ", "@ + spec_digits(components as nat) + " component(s))"@,
            )
        }),
{
    reveal_strlit(" (");
    reveal_strlit("free");
    reveal_strlit("1 pt");
    reveal_strlit(" pt");
    reveal_strlit(" (free)");
    reveal_strlit(" (1 pt)");
    reveal_strlit(" pt)");
    reveal_strlit(" component(s)");
    reveal_strlit(" component(s))");
    let t = spec_spell(CombatEvent::SpellCast { caster, spell, points, components }, names)->0;
    let head = names.spec_member(caster) + " casts "@ + names.spec_spell(spell);
    if components == 0 {
        if points == 0 {
            assert(t.0 =~= head + " (free)"@);
        } else if points == 1 {
            assert(t.0 =~= head + " (1 pt)"@);
        } else {
            assert(t.0 =~= head + " ("@ + spec_digits(points as nat) + " pt)"@);
        }
    } else {
        let tail = ", "@ + spec_digits(components as nat) + " component(s))"@;
        assert(t.0.subrange(0, head.len() as int) =~= head);
        assert(t.0.subrange(t.0.len() - tail.len(), t.0.len() as int) =~= tail);
    }
}

/// A heal's short line is who regained how much and their hit points now; the long line is
/// the same when no dice were thrown, else the short one followed by the dice.
pub proof fn lemma_heal_line_shows_its_dice(target: u64, rolls: Vec<RollTrace>, amount: i64, hp: i64, names: Names)
    ensures
        ({
            let t = spec_spell(CombatEvent::Healed { target, rolls, amount, hp }, names)->0;
            &&& t.1 == names.spec_member(target) + " regains "@ + spec_decimal(amount as int) + " hp, now "@
                + spec_decimal(hp as int)
            &&& rolls@.len() == 0 ==> t.0 == t.1
            &&& rolls@.len() > 0 ==> starts_with(t.0, t.1 + " ("@) && ends_with(t.0, seq![')'])
        }),
{
    let t = spec_spell(CombatEvent::Healed { target, rolls, amount, hp }, names)->0;
    if rolls@.len() > 0 {
        assert(t.0.subrange(0, (t.1 + " ("@).len() as int) =~= t.1 + " ("@);
        assert(t.0.subrange(t.0.len() - 1, t.0.len() as int) =~= seq![')']);
    }
}

/// An effect that settles names the member it settles on, or lights the party's way; an
/// effect that ends names whom it leaves, `the party` for the party.
pub proof fn lemma_effect_lines_name_whom(target: EffectTarget, spell: u32, why: EffectEnd, names: Names)
    ensures
        ({
            let on = spec_spell(CombatEvent::EffectApplied { target, spell }, names)->0;
            let off = spec_spell(CombatEvent::EffectEnded { target, spell, why }, names)->0;
            let what = names.spec_spell(spell);
            &&& target matches EffectTarget::Member(id) ==> on.0 == what + " settles on "@ + names.spec_member(id)
                && ends_with(off.0, names.spec_member(id))
            &&& target is Party ==> on.0 == what + " lights the party's way"@ && ends_with(off.0, "the party"@)
            &&& starts_with(off.0, what)
            &&& why is Expired ==> off.0 == what + " fades from "@ + spec_whom(names, target)
            &&& why is Consumed ==> off.0 == what + " is spent on "@ + spec_whom(names, target)
        }),
{
    let off = spec_spell(CombatEvent::EffectEnded { target, spell, why }, names)->0;
    let what = names.spec_spell(spell);
    let whom = spec_whom(names, target);
    assert(off.0.subrange(off.0.len() - whom.len(), off.0.len() as int) =~= whom);
    assert(off.0.subrange(0, what.len() as int) =~= what);
}

} // verus!
