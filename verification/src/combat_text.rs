//! Combat events as text, with the roll math the simulation traced: a long form for the
//! band's message line and a short form for the roll log under the viewport. The simulation
//! hands over ids and traces as plain values; this module is where they become English.

use vstd::prelude::*;
use crate::font::{spec_fit, lemma_fit_prefix};
use crate::spell_text::{spell_line, spec_spell};
use crate::text::{
    push_char, push_str, push_digits, push_decimal, push_join, views, spec_join, spec_digits,
    spec_decimal, Line, LONG_CELLS, SHORT_CELLS,
};

verus! {

/// Who an event speaks of.
#[derive(Debug, Clone, Copy, PartialEq, Eq, Structural)]
pub enum ActorRef {
    /// A party member, by character id.
    Member(u64),
    /// A whole stack of monsters, by stack index.
    Stack(u8),
    /// One monster of a stack.
    Monster { stack: u8, index: u8 },
}

/// The names events refer to by id. Members are remembered by id after they leave the party
/// and stacks after a fight ends, so the batch that ends a fight still reads. A later entry
/// for an id stands over an earlier one.
#[derive(Debug, Clone, Default, PartialEq, Eq)]
pub struct Names {
    /// Member names by character id.
    pub members: Vec<(u64, String)>,
    /// Label and initial count per stack index.
    pub stacks: Vec<(String, u8)>,
    /// Condition names by condition id.
    pub conditions: Vec<(u32, String)>,
    /// Spell names by spell id.
    pub spells: Vec<(u32, String)>,
}

/// The name the latest entry for `key` gives, or `?` when there is none.
pub open spec fn spec_lookup_u64(entries: Seq<(u64, String)>, key: u64) -> Seq<char>
    decreases entries.len(),
{
    if entries.len() == 0 {
        seq!['?']
    } else if entries.last().0 == key {
        entries.last().1@
    } else {
        spec_lookup_u64(entries.drop_last(), key)
    }
}

/// The name the latest entry for `key` gives, or `?` when there is none.
pub open spec fn spec_lookup_u32(entries: Seq<(u32, String)>, key: u32) -> Seq<char>
    decreases entries.len(),
{
    if entries.len() == 0 {
        seq!['?']
    } else if entries.last().0 == key {
        entries.last().1@
    } else {
        spec_lookup_u32(entries.drop_last(), key)
    }
}

fn find_u64(entries: &Vec<(u64, String)>, key: u64) -> (r: Option<usize>)
    ensures
        match r {
            Some(i) => i < entries@.len() && spec_lookup_u64(entries@, key) == entries@[i as int].1@,
            None => spec_lookup_u64(entries@, key) == seq!['?'],
        },
{
    let mut i = entries.len();
    assert(entries@.take(i as int) =~= entries@);
    while i > 0
        invariant
            i <= entries@.len(),
            spec_lookup_u64(entries@, key) == spec_lookup_u64(entries@.take(i as int), key),
        decreases i,
    {
        assert(entries@.take(i as int).last() == entries@[i - 1]);
        if entries[i - 1].0 == key {
            return Some(i - 1);
        }
        assert(entries@.take(i as int).drop_last() =~= entries@.take(i - 1));
        i = i - 1;
    }
    None
}

fn find_u32(entries: &Vec<(u32, String)>, key: u32) -> (r: Option<usize>)
    ensures
        match r {
            Some(i) => i < entries@.len() && spec_lookup_u32(entries@, key) == entries@[i as int].1@,
            None => spec_lookup_u32(entries@, key) == seq!['?'],
        },
{
    let mut i = entries.len();
    assert(entries@.take(i as int) =~= entries@);
    while i > 0
        invariant
            i <= entries@.len(),
            spec_lookup_u32(entries@, key) == spec_lookup_u32(entries@.take(i as int), key),
        decreases i,
    {
        assert(entries@.take(i as int).last() == entries@[i - 1]);
        if entries[i - 1].0 == key {
            return Some(i - 1);
        }
        assert(entries@.take(i as int).drop_last() =~= entries@.take(i - 1));
        i = i - 1;
    }
    None
}

/// Copies of `entries`, in order.
fn cloned_u64(entries: &[(u64, String)]) -> (r: Vec<(u64, String)>)
    ensures
        r@ == entries@,
{
    let mut out: Vec<(u64, String)> = Vec::new();
    let mut i: usize = 0;
    while i < entries.len()
        invariant
            i <= entries@.len(),
            out@ == entries@.take(i as int),
        decreases entries@.len() - i,
    {
        let id = entries[i].0;
        let name = entries[i].1.clone();
        out.push((id, name));
        assert(entries@.take(i + 1) =~= entries@.take(i as int).push(entries@[i as int]));
        i = i + 1;
    }
    assert(entries@.take(entries@.len() as int) =~= entries@);
    out
}

/// Copies of `entries`, in order.
fn cloned_u32(entries: &[(u32, String)]) -> (r: Vec<(u32, String)>)
    ensures
        r@ == entries@,
{
    let mut out: Vec<(u32, String)> = Vec::new();
    let mut i: usize = 0;
    while i < entries.len()
        invariant
            i <= entries@.len(),
            out@ == entries@.take(i as int),
        decreases entries@.len() - i,
    {
        let id = entries[i].0;
        let name = entries[i].1.clone();
        out.push((id, name));
        assert(entries@.take(i + 1) =~= entries@.take(i as int).push(entries@[i as int]));
        i = i + 1;
    }
    assert(entries@.take(entries@.len() as int) =~= entries@);
    out
}

/// Copies of the stack labels and counts, in order.
fn cloned_stacks(entries: &[(String, u8)]) -> (r: Vec<(String, u8)>)
    ensures
        r@ == entries@,
{
    let mut out: Vec<(String, u8)> = Vec::new();
    let mut i: usize = 0;
    while i < entries.len()
        invariant
            i <= entries@.len(),
            out@ == entries@.take(i as int),
        decreases entries@.len() - i,
    {
        let label = entries[i].0.clone();
        let count = entries[i].1;
        out.push((label, count));
        assert(entries@.take(i + 1) =~= entries@.take(i as int).push(entries@[i as int]));
        i = i + 1;
    }
    assert(entries@.take(entries@.len() as int) =~= entries@);
    out
}

impl Names {
    /// A member's name, `?` for an id never seen.
    pub open spec fn spec_member(self, id: u64) -> Seq<char> {
        spec_lookup_u64(self.members@, id)
    }

    /// A condition's name, `?` for an unknown id.
    pub open spec fn spec_condition(self, id: u32) -> Seq<char> {
        spec_lookup_u32(self.conditions@, id)
    }

    /// A spell's name, `?` for an unknown id.
    pub open spec fn spec_spell(self, id: u32) -> Seq<char> {
        spec_lookup_u32(self.spells@, id)
    }

    /// Who an actor is: `Brenna`, `Goblins` for a stack, `Goblin 2` for one of several.
    pub open spec fn spec_actor(self, actor: ActorRef) -> Seq<char> {
        match actor {
            ActorRef::Member(id) => self.spec_member(id),
            ActorRef::Stack(stack) => if stack < self.stacks@.len() {
                let (label, count) = self.stacks@[stack as int];
                if count == 1 {
                    label@
                } else {
                    label@ + seq!['s']
                }
            } else {
                "Stack "@ + spec_digits(stack as nat)
            },
            ActorRef::Monster { stack, index } => if stack < self.stacks@.len() {
                let (label, count) = self.stacks@[stack as int];
                if count == 1 {
                    label@
                } else {
                    label@ + seq![' '] + spec_digits((index + 1) as nat)
                }
            } else {
                "Stack "@ + spec_digits(stack as nat) + " #"@ + spec_digits((index + 1) as nat)
            },
        }
    }

    /// Names with nothing learned yet.
    pub fn empty() -> (r: Names)
        ensures
            r.members@.len() == 0,
            r.stacks@.len() == 0,
            r.conditions@.len() == 0,
            r.spells@.len() == 0,
    {
        Names { members: Vec::new(), stacks: Vec::new(), conditions: Vec::new(), spells: Vec::new() }
    }

    /// Names for the world as it is: the party's members, the stacks standing there if any,
    /// and the condition and spell names of the loaded data.
    pub fn new(
        members: &[(u64, String)],
        stacks: Option<&[(String, u8)]>,
        conditions: &[(u32, String)],
        spells: &[(u32, String)],
    ) -> (r: Names)
        ensures
            r.members@ == members@,
            r.stacks@ == (match stacks {
                Some(s) => s@,
                None => Seq::empty(),
            }),
            r.conditions@ == conditions@,
            r.spells@ == spells@,
    {
        let mut names = Names::empty();
        names.refresh(members, stacks, conditions, spells);
        assert(Seq::<(u64, String)>::empty() + members@ =~= members@);
        names
    }

    /// Learn the current members and, while monsters stand there, the current stacks. The
    /// condition and spell names are learned once, when none are known yet.
    pub fn refresh(
        &mut self,
        members: &[(u64, String)],
        stacks: Option<&[(String, u8)]>,
        conditions: &[(u32, String)],
        spells: &[(u32, String)],
    )
        ensures
            final(self).members@ == old(self).members@ + members@,
            final(self).stacks@ == (match stacks {
                Some(s) => s@,
                None => old(self).stacks@,
            }),
            final(self).conditions@ == (if old(self).conditions@.len() == 0 {
                conditions@
            } else {
                old(self).conditions@
            }),
            final(self).spells@ == (if old(self).spells@.len() == 0 {
                spells@
            } else {
                old(self).spells@
            }),
    {
        let mut more = cloned_u64(members);
        self.members.append(&mut more);
        if let Some(s) = stacks {
            self.stacks = cloned_stacks(s);
        }
        if self.conditions.len() == 0 {
            self.conditions = cloned_u32(conditions);
        }
        if self.spells.len() == 0 {
            self.spells = cloned_u32(spells);
        }
    }

    /// Append a member's name.
    pub fn push_member(&self, out: &mut String, id: u64)
        ensures
            final(out)@ == old(out)@ + self.spec_member(id),
    {
        match find_u64(&self.members, id) {
            Some(i) => push_str(out, self.members[i].1.as_str()),
            None => {
                push_char(out, '?');
                assert(old(out)@.push('?') =~= old(out)@ + seq!['?']);
            },
        }
    }

    /// Append a condition's name.
    pub fn push_condition(&self, out: &mut String, id: u32)
        ensures
            final(out)@ == old(out)@ + self.spec_condition(id),
    {
        match find_u32(&self.conditions, id) {
            Some(i) => push_str(out, self.conditions[i].1.as_str()),
            None => {
                push_char(out, '?');
                assert(old(out)@.push('?') =~= old(out)@ + seq!['?']);
            },
        }
    }

    /// Append a spell's name.
    pub fn push_spell(&self, out: &mut String, id: u32)
        ensures
            final(out)@ == old(out)@ + self.spec_spell(id),
    {
        match find_u32(&self.spells, id) {
            Some(i) => push_str(out, self.spells[i].1.as_str()),
            None => {
                push_char(out, '?');
                assert(old(out)@.push('?') =~= old(out)@ + seq!['?']);
            },
        }
    }

    /// Append who an actor is.
    pub fn push_actor(&self, out: &mut String, actor: &ActorRef)
        ensures
            final(out)@ == old(out)@ + self.spec_actor(*actor),
    {
        match actor {
            ActorRef::Member(id) => self.push_member(out, *id),
            ActorRef::Stack(stack) => {
                let s = *stack as usize;
                if s < self.stacks.len() {
                    push_str(out, self.stacks[s].0.as_str());
                    if self.stacks[s].1 != 1 {
                        push_char(out, 's');
                    }
                } else {
                    push_str(out, "Stack ");
                    push_digits(out, *stack as u64);
                }
                assert(final(out)@ =~= old(out)@ + self.spec_actor(*actor)) by {
                    if s < self.stacks@.len() && self.stacks@[s as int].1 != 1 {
                        assert(old(out)@ + self.stacks@[s as int].0@ + seq!['s'] =~= old(out)@ + (
                        self.stacks@[s as int].0@ + seq!['s']));
                    }
                }
            },
            ActorRef::Monster { stack, index } => {
                let s = *stack as usize;
                let shown: u64 = *index as u64 + 1;
                if s < self.stacks.len() {
                    push_str(out, self.stacks[s].0.as_str());
                    if self.stacks[s].1 != 1 {
                        push_char(out, ' ');
                        push_digits(out, shown);
                    }
                } else {
                    push_str(out, "Stack ");
                    push_digits(out, *stack as u64);
                    push_str(out, " #");
                    push_digits(out, shown);
                }
                assert(final(out)@ =~= old(out)@ + self.spec_actor(*actor));
            },
        }
    }

    /// A member's name.
    pub fn member(&self, id: u64) -> (r: String)
        ensures
            r@ == self.spec_member(id),
    {
        let mut out = String::new();
        self.push_member(&mut out, id);
        assert(out@ =~= self.spec_member(id));
        out
    }

    /// Who an actor is: `Brenna`, `Goblins` for a stack, `Goblin 2` for one of several.
    pub fn actor(&self, actor: &ActorRef) -> (r: String)
        ensures
            r@ == self.spec_actor(*actor),
    {
        let mut out = String::new();
        self.push_actor(&mut out, actor);
        assert(out@ =~= self.spec_actor(*actor));
        out
    }

    /// A condition's name.
    pub fn condition(&self, id: u32) -> (r: String)
        ensures
            r@ == self.spec_condition(id),
    {
        let mut out = String::new();
        self.push_condition(&mut out, id);
        assert(out@ =~= self.spec_condition(id));
        out
    }

    /// A spell's name.
    pub fn spell(&self, id: u32) -> (r: String)
        ensures
            r@ == self.spec_spell(id),
    {
        let mut out = String::new();
        self.push_spell(&mut out, id);
        assert(out@ =~= self.spec_spell(id));
        out
    }
}


/// Dice thrown and what they showed.
#[derive(Debug, Clone, PartialEq, Eq)]
pub struct RollTrace {
    /// The dice as written, `1d8` or `1d6+2`.
    pub dice: String,
    /// Each die's face, in throw order.
    pub rolls: Vec<u32>,
    /// The sum with the dice's modifier.
    pub total: i64,
}

/// How a d20 was thrown.
#[derive(Debug, Clone, Copy, PartialEq, Eq, Structural)]
pub enum RollMode {
    /// One die.
    Normal,
    /// Two dice, the higher counts.
    Advantage,
    /// Two dice, the lower counts.
    Disadvantage,
}

/// A d20 check or attack: the dice, the mode, the bonuses, and the result.
#[derive(Debug, Clone, PartialEq, Eq)]
pub struct Roll {
    /// The dice thrown.
    pub trace: RollTrace,
    /// One die, or two with advantage or disadvantage.
    pub mode: RollMode,
    /// The ability modifier.
    pub modifier: i32,
    /// The proficiency bonus, where it applies.
    pub proficiency: i32,
    /// The result.
    pub total: i64,
}

/// Faces as `[3, 17]`.
pub open spec fn spec_faces(rolls: Seq<u32>) -> Seq<char> {
    seq!['['] + spec_join(Seq::new(rolls.len(), |k: int| spec_digits(rolls[k] as nat)), ", "@)
        + seq![']']
}

/// `1d8+2 [5]=7`: a trace with its faces and total.
pub open spec fn spec_trace_math(trace: RollTrace) -> Seq<char> {
    trace.dice@ + seq![' '] + spec_faces(trace.rolls@) + seq!['='] + spec_decimal(trace.total as int)
}

/// The dice word of a d20 throw.
pub open spec fn spec_dice_word(mode: RollMode) -> Seq<char> {
    match mode {
        RollMode::Normal => "1d20"@,
        RollMode::Advantage => "2d20 adv"@,
        RollMode::Disadvantage => "2d20 dis"@,
    }
}

/// A bonus with its sign, nothing for none.
pub open spec fn spec_signed(bonus: int) -> Seq<char> {
    if bonus == 0 {
        Seq::empty()
    } else if bonus > 0 {
        seq!['+'] + spec_digits(bonus as nat)
    } else {
        spec_decimal(bonus)
    }
}

/// `1d20+4 [17]=21`, or `2d20 adv+4 [3, 17]=21` under a mode.
pub open spec fn spec_roll_math(roll: Roll) -> Seq<char> {
    spec_dice_word(roll.mode) + spec_signed(roll.modifier + roll.proficiency) + seq![' ']
        + spec_faces(roll.trace.rolls@) + seq!['='] + spec_decimal(roll.total as int)
}

/// Append the faces as `[3, 17]`.
fn push_faces(out: &mut String, rolls: &Vec<u32>)
    ensures
        final(out)@ == old(out)@ + spec_faces(rolls@),
{
    let mut parts: Vec<String> = Vec::new();
    let mut i: usize = 0;
    while i < rolls.len()
        invariant
            i <= rolls@.len(),
            parts@.len() == i,
            forall|k: int| 0 <= k < i ==> #[trigger] parts@[k]@ == spec_digits(rolls@[k] as nat),
        decreases rolls@.len() - i,
    {
        let mut part = String::new();
        push_digits(&mut part, rolls[i] as u64);
        assert(part@ =~= spec_digits(rolls@[i as int] as nat));
        parts.push(part);
        i = i + 1;
    }
    assert(views(parts@) =~= Seq::new(rolls@.len(), |k: int| spec_digits(rolls@[k] as nat)));
    push_char(out, '[');
    push_join(out, parts.as_slice(), ", ");
    push_char(out, ']');
    assert(final(out)@ =~= old(out)@ + spec_faces(rolls@));
}

/// Append `1d8+2 [5]=7`.
pub fn push_trace_math(out: &mut String, trace: &RollTrace)
    ensures
        final(out)@ == old(out)@ + spec_trace_math(*trace),
{
    push_str(out, trace.dice.as_str());
    push_char(out, ' ');
    push_faces(out, &trace.rolls);
    push_char(out, '=');
    push_decimal(out, trace.total);
    assert(final(out)@ =~= old(out)@ + spec_trace_math(*trace));
}

/// Append the roll math of a d20 throw.
pub fn push_roll_math(out: &mut String, roll: &Roll)
    ensures
        final(out)@ == old(out)@ + spec_roll_math(*roll),
{
    match roll.mode {
        RollMode::Normal => push_str(out, "1d20"),
        RollMode::Advantage => push_str(out, "2d20 adv"),
        RollMode::Disadvantage => push_str(out, "2d20 dis"),
    }
    let ghost mid = out@;
    let bonus: i64 = roll.modifier as i64 + roll.proficiency as i64;
    if bonus > 0 {
        push_char(out, '+');
        push_digits(out, bonus as u64);
        assert(out@ =~= mid + spec_signed(bonus as int));
    } else if bonus < 0 {
        push_decimal(out, bonus);
    } else {
        assert(out@ =~= mid + spec_signed(bonus as int));
    }
    push_char(out, ' ');
    push_faces(out, &roll.trace.rolls);
    push_char(out, '=');
    push_decimal(out, roll.total);
    assert(final(out)@ =~= old(out)@ + spec_roll_math(*roll));
}

/// `1d20+4 [17]=21`, or `2d20 adv+4 [3, 17]=21` under a mode.
pub fn roll_math(roll: &Roll) -> (r: String)
    ensures
        r@ == spec_roll_math(*roll),
{
    let mut out = String::new();
    push_roll_math(&mut out, roll);
    assert(out@ =~= spec_roll_math(*roll));
    out
}

/// `1d8+2 [5]=7`: the trace with its faces and total.
pub fn trace_math(trace: &RollTrace) -> (r: String)
    ensures
        r@ == spec_trace_math(*trace),
{
    let mut out = String::new();
    push_trace_math(&mut out, trace);
    assert(out@ =~= spec_trace_math(*trace));
    out
}


/// What a check was for.
#[derive(Debug, Clone, Copy, PartialEq, Eq, Structural)]
pub enum CheckKind {
    /// Sneaking past.
    Stealth,
    /// Hiding.
    Hide,
    /// Running from an encounter.
    Run,
    /// Fleeing a fight.
    Flee,
    /// A saving throw.
    Save,
}

/// Who was caught unready when a fight began.
#[derive(Debug, Clone, Copy, PartialEq, Eq, Structural)]
pub enum Surprise {
    /// Nobody.
    Nobody,
    /// The party.
    Party,
    /// The monsters.
    Monsters,
}

/// How a target's resistances changed the damage.
#[derive(Debug, Clone, Copy, PartialEq, Eq, Structural)]
pub enum DamageAdjust {
    /// Taken in full.
    Full,
    /// Halved.
    Resisted,
    /// Doubled.
    Vulnerable,
    /// None taken.
    Immune,
}

/// What a death save came to.
#[derive(Debug, Clone, Copy, PartialEq, Eq, Structural)]
pub enum DeathSaveResult {
    /// One more success.
    Success,
    /// One more failure.
    Failure,
    /// Three successes.
    Stable,
    /// A natural 20: back on their feet.
    Revived,
    /// Three failures.
    Died,
}

/// How a fight ended.
#[derive(Debug, Clone, Copy, PartialEq, Eq, Structural)]
pub enum CombatOutcome {
    /// The monsters are gone.
    Victory,
    /// The party got away.
    Fled,
    /// The party fell.
    Defeat,
}

/// Whom a spell's effect is on.
#[derive(Debug, Clone, Copy, PartialEq, Eq, Structural)]
pub enum EffectTarget {
    /// One member.
    Member(u64),
    /// The whole party.
    Party,
}

/// Why an effect ended.
#[derive(Debug, Clone, Copy, PartialEq, Eq, Structural)]
pub enum EffectEnd {
    /// Its time ran out.
    Expired,
    /// It was used up.
    Consumed,
    /// Its caster stopped concentrating.
    Concentration,
    /// It lasted until the next turn began.
    TurnBegan,
    /// It lasted until the fight ended.
    FightOver,
}

/// What the simulation reports after a command, as far as the log reads it.
#[derive(Debug, Clone, PartialEq, Eq)]
pub enum CombatEvent {
    /// Monsters came into view.
    EncounterStarted {
        /// How many stand in each stack, by stack index.
        stacks: Vec<u32>,
        /// Their mood, as the data names it (`Wary`).
        disposition: String,
        /// Their stealth against the party, when they tried to sneak up.
        stealth: Option<Roll>,
        /// The party's passive perception.
        perception: i64,
        /// Whether the party saw them coming.
        noticed: bool,
    },
    /// A check was made.
    Check { actor: ActorRef, kind: CheckKind, roll: Option<Roll>, dc: i64, success: bool },
    /// The party paid the monsters off.
    Bribed { cost: u64 },
    /// A fight began.
    CombatStarted { surprised: Surprise },
    /// The order of turns, with each initiative total.
    Initiative { order: Vec<(ActorRef, i64)> },
    /// A round began.
    RoundStarted { round: u32 },
    /// An actor held back.
    Waited { actor: ActorRef },
    /// An actor took the dodge action.
    Dodging { actor: ActorRef },
    /// Two marching slots swapped.
    Exchanged { a: u32, b: u32 },
    /// An attack roll against armour class.
    AttackResolved { attacker: ActorRef, target: ActorRef, roll: Roll, ac: i64, hit: bool, crit: bool },
    /// Damage dealt.
    Damage {
        target: ActorRef,
        /// The damage type, as the data names it (`Slashing`).
        kind: String,
        rolls: Vec<RollTrace>,
        amount: i64,
        adjust: DamageAdjust,
    },
    /// A member dropped to zero hit points.
    Down { target: u64 },
    /// A downed member was hit.
    Wounded { member: u64, failures: u8 },
    /// A downed member's death save.
    DeathSave { member: u64, roll: RollTrace, result: DeathSaveResult, successes: u8, failures: u8 },
    /// A condition came or went.
    Condition { target: ActorRef, condition: u32, applied: bool },
    /// Someone died, a monster perhaps dropping gold.
    Death { target: ActorRef, gold: Option<RollTrace> },
    /// A fight ended.
    CombatEnded { outcome: CombatOutcome, xp: u64, gold: u64, fallen: Vec<u64> },
    /// A member cast a spell.
    SpellCast {
        caster: u64,
        spell: u32,
        /// Spell points spent.
        points: u32,
        /// How many material components were used up.
        components: u64,
    },
    /// A member regained hit points.
    Healed { target: u64, rolls: Vec<RollTrace>, amount: i64, hp: i64 },
    /// A spell's effect took hold.
    EffectApplied { target: EffectTarget, spell: u32 },
    /// A spell's effect ended.
    EffectEnded { target: EffectTarget, spell: u32, why: EffectEnd },
    /// A caster let a concentration spell go.
    Concentration { caster: u64, spell: u32 },
    /// A member's auto-cast switch for a spell was set.
    AutoCast { member: u64, spell: u32, on: bool },
    /// Anything the log does not show: turns, encounter checks, party changes.
    Other,
}

/// An event's long text, with the math, and its short text, the outcome alone.
pub open spec fn same(text: Seq<char>) -> (Seq<char>, Seq<char>) {
    (text, text)
}

/// A line holds the two texts, each fitted to its cells.
pub open spec fn line_is(line: Line, texts: (Seq<char>, Seq<char>)) -> bool {
    &&& line.long@ == spec_fit(texts.0, LONG_CELLS as int)
    &&& line.short@ == spec_fit(texts.1, SHORT_CELLS as int)
}

/// A line where the texts are some, none where they are none.
pub open spec fn opt_line_is(line: Option<Line>, texts: Option<(Seq<char>, Seq<char>)>) -> bool {
    match texts {
        Some(t) => line is Some && line_is(line->0, t),
        None => line is None,
    }
}

/// Lines holding the texts, one for one.
pub open spec fn lines_are(lines: Seq<Line>, texts: Seq<(Seq<char>, Seq<char>)>) -> bool {
    &&& lines.len() == texts.len()
    &&& forall|k: int| 0 <= k < lines.len() ==> line_is(#[trigger] lines[k], texts[k])
}

/// An ASCII capital in lower case; any other character as it is.
pub open spec fn lower_char(c: char) -> char {
    if 'A' <= c && c <= 'Z' {
        ((c as u32) + 32) as char
    } else {
        c
    }
}

/// A name in lower case.
pub open spec fn spec_lower(s: Seq<char>) -> Seq<char> {
    s.map_values(|c: char| lower_char(c))
}

/// Append a name in lower case.
fn push_lower(out: &mut String, s: &str)
    ensures
        final(out)@ == old(out)@ + spec_lower(s@),
{
    let n = s.unicode_len();
    let mut i: usize = 0;
    while i < n
        invariant
            i <= n,
            n == s@.len(),
            out@ == old(out)@ + spec_lower(s@.take(i as int)),
        decreases n - i,
    {
        let c = s.get_char(i);
        let v = c as u32;
        let d = if 65 <= v && v <= 90 {
            ((v + 32) as u8) as char
        } else {
            c
        };
        assert(d == lower_char(c));
        push_char(out, d);
        assert(spec_lower(s@.take(i + 1)) =~= spec_lower(s@.take(i as int)).push(lower_char(s@[i as int])));
        i = i + 1;
    }
    assert(s@.take(n as int) =~= s@);
}

/// What resisting did to the damage, as words after the amount.
pub open spec fn spec_adjust_word(adjust: DamageAdjust) -> Seq<char> {
    match adjust {
        DamageAdjust::Full => Seq::empty(),
        DamageAdjust::Resisted => " (resisted)"@,
        DamageAdjust::Vulnerable => " (doubled)"@,
        DamageAdjust::Immune => " (immune)"@,
    }
}

fn push_adjust_word(out: &mut String, adjust: DamageAdjust)
    ensures
        final(out)@ == old(out)@ + spec_adjust_word(adjust),
{
    match adjust {
        DamageAdjust::Full => {
            assert(old(out)@ + spec_adjust_word(adjust) =~= old(out)@);
        },
        DamageAdjust::Resisted => push_str(out, " (resisted)"),
        DamageAdjust::Vulnerable => push_str(out, " (doubled)"),
        DamageAdjust::Immune => push_str(out, " (immune)"),
    }
}

/// The texts of an attack, with the damage folded in when it followed a hit.
pub open spec fn spec_attack_texts(
    names: Names,
    attacker: ActorRef,
    target: ActorRef,
    roll: Roll,
    ac: i64,
    hit: bool,
    crit: bool,
    damage: Option<(i64, DamageAdjust)>,
) -> (Seq<char>, Seq<char>) {
    let verb = if crit {
        "crits"@
    } else if hit {
        "hits"@
    } else {
        "misses"@
    };
    let told = names.spec_actor(attacker) + seq![' '] + verb + seq![' '] + names.spec_actor(target);
    let outcome = match damage {
        Some((amount, adjust)) => told + " for "@ + spec_decimal(amount as int) + spec_adjust_word(
            adjust,
        ),
        None => told,
    };
    (outcome + " ("@ + spec_roll_math(roll) + " vs AC "@ + spec_decimal(ac as int) + seq![')'], outcome)
}

fn attack_line(
    names: &Names,
    attacker: &ActorRef,
    target: &ActorRef,
    roll: &Roll,
    ac: i64,
    hit: bool,
    crit: bool,
    damage: Option<(i64, DamageAdjust)>,
) -> (r: Line)
    ensures
        line_is(r, spec_attack_texts(*names, *attacker, *target, *roll, ac, hit, crit, damage)),
{
    let mut outcome = String::new();
    names.push_actor(&mut outcome, attacker);
    push_char(&mut outcome, ' ');
    if crit {
        push_str(&mut outcome, "crits");
    } else if hit {
        push_str(&mut outcome, "hits");
    } else {
        push_str(&mut outcome, "misses");
    }
    push_char(&mut outcome, ' ');
    names.push_actor(&mut outcome, target);
    match damage {
        Some((amount, adjust)) => {
            push_str(&mut outcome, " for ");
            push_decimal(&mut outcome, amount);
            push_adjust_word(&mut outcome, adjust);
        },
        None => {},
    }
    let ghost t = spec_attack_texts(*names, *attacker, *target, *roll, ac, hit, crit, damage);
    assert(outcome@ =~= t.1);
    let mut long = outcome.clone();
    push_str(&mut long, " (");
    push_roll_math(&mut long, roll);
    push_str(&mut long, " vs AC ");
    push_decimal(&mut long, ac);
    push_char(&mut long, ')');
    assert(long@ =~= t.0);
    Line::new(long, outcome)
}


/// A stack's label by index, `?` past the known stacks.
pub open spec fn spec_stack_label(names: Names, i: int) -> Seq<char> {
    if 0 <= i < names.stacks@.len() {
        names.stacks@[i].0@
    } else {
        seq!['?']
    }
}

/// `3 Goblin, 1 Ogre`: who stands there.
pub open spec fn spec_who_stands(names: Names, stacks: Seq<u32>) -> Seq<char> {
    spec_join(
        Seq::new(stacks.len(), |i: int| spec_digits(stacks[i] as nat) + seq![' '] + spec_stack_label(names, i)),
        ", "@,
    )
}

/// The verb of a check.
pub open spec fn spec_check_verb(kind: CheckKind) -> Seq<char> {
    match kind {
        CheckKind::Stealth => "sneaks"@,
        CheckKind::Hide => "hides"@,
        CheckKind::Run => "runs"@,
        CheckKind::Flee => "flees"@,
        CheckKind::Save => "saves"@,
    }
}

/// The encounter phase: who stands there, the checks, the bribe.
pub open spec fn spec_before_fight(event: CombatEvent, names: Names) -> Option<(Seq<char>, Seq<char>)> {
    match event {
        CombatEvent::EncounterStarted { stacks, disposition, stealth, perception, noticed } => {
            let who = spec_who_stands(names, stacks@);
            let mood = spec_lower(disposition@);
            let seen = match stealth {
                Some(roll) => " (stealth "@ + spec_roll_math(roll) + " vs "@ + spec_decimal(
                    perception as int,
                ) + ": "@ + (if noticed {
                    "noticed"@
                } else {
                    "surprised!"@
                }) + seq![')'],
                None => Seq::empty(),
            };
            Some(
                (
                    who + ", "@ + mood + seen,
                    if noticed {
                        who + ", "@ + mood
                    } else {
                        "Ambush! "@ + who
                    },
                ),
            )
        },
        CombatEvent::Check { actor, kind, roll, dc, success } => {
            let told = names.spec_actor(actor) + seq![' '] + spec_check_verb(kind) + ": "@ + (if success {
                "success"@
            } else {
                "failure"@
            });
            let math = match roll {
                Some(r) => spec_roll_math(r) + " vs DC "@ + spec_decimal(dc as int),
                None => "no roll needed"@,
            };
            Some((told + " ("@ + math + seq![')'], told))
        },
        CombatEvent::Bribed { cost } => Some(
            same("The party pays "@ + spec_digits(cost as nat) + " gold; they leave"@),
        ),
        _ => None,
    }
}

fn before_fight_line(event: &CombatEvent, names: &Names) -> (r: Option<Line>)
    ensures
        opt_line_is(r, spec_before_fight(*event, *names)),
{
    match event {
        CombatEvent::EncounterStarted { stacks, disposition, stealth, perception, noticed } => {
            let mut parts: Vec<String> = Vec::new();
            let mut i: usize = 0;
            while i < stacks.len()
                invariant
                    i <= stacks@.len(),
                    parts@.len() == i,
                    forall|k: int|
                        0 <= k < i ==> #[trigger] parts@[k]@ == spec_digits(stacks@[k] as nat) + seq![' ']
                            + spec_stack_label(*names, k),
                decreases stacks@.len() - i,
            {
                let mut part = String::new();
                push_digits(&mut part, stacks[i] as u64);
                push_char(&mut part, ' ');
                if i < names.stacks.len() {
                    push_str(&mut part, names.stacks[i].0.as_str());
                } else {
                    push_char(&mut part, '?');
                }
                assert(part@ =~= spec_digits(stacks@[i as int] as nat) + seq![' '] + spec_stack_label(
                    *names,
                    i as int,
                ));
                parts.push(part);
                i = i + 1;
            }
            let ghost who = spec_who_stands(*names, stacks@);
            assert(views(parts@) =~= Seq::new(
                stacks@.len(),
                |k: int| spec_digits(stacks@[k] as nat) + seq![' '] + spec_stack_label(*names, k),
            ));
            let mut told = String::new();
            push_join(&mut told, parts.as_slice(), ", ");
            push_str(&mut told, ", ");
            push_lower(&mut told, disposition.as_str());
            let ghost mood = spec_lower(disposition@);
            assert(told@ =~= who + ", "@ + mood);
            let mut long = told.clone();
            match stealth {
                Some(roll) => {
                    push_str(&mut long, " (stealth ");
                    push_roll_math(&mut long, roll);
                    push_str(&mut long, " vs ");
                    push_decimal(&mut long, *perception);
                    push_str(&mut long, ": ");
                    if *noticed {
                        push_str(&mut long, "noticed");
                    } else {
                        push_str(&mut long, "surprised!");
                    }
                    push_char(&mut long, ')');
                },
                None => {},
            }
            let ghost t = spec_before_fight(*event, *names)->0;
            assert(long@ =~= t.0);
            if *noticed {
                Some(Line::new(long, told))
            } else {
                let mut short = String::new();
                push_str(&mut short, "Ambush! ");
                push_join(&mut short, parts.as_slice(), ", ");
                assert(short@ =~= t.1);
                Some(Line::new(long, short))
            }
        },
        CombatEvent::Check { actor, kind, roll, dc, success } => {
            let mut told = String::new();
            names.push_actor(&mut told, actor);
            push_char(&mut told, ' ');
            match kind {
                CheckKind::Stealth => push_str(&mut told, "sneaks"),
                CheckKind::Hide => push_str(&mut told, "hides"),
                CheckKind::Run => push_str(&mut told, "runs"),
                CheckKind::Flee => push_str(&mut told, "flees"),
                CheckKind::Save => push_str(&mut told, "saves"),
            }
            push_str(&mut told, ": ");
            if *success {
                push_str(&mut told, "success");
            } else {
                push_str(&mut told, "failure");
            }
            let ghost t = spec_before_fight(*event, *names)->0;
            assert(told@ =~= t.1);
            let mut long = told.clone();
            push_str(&mut long, " (");
            match roll {
                Some(r) => {
                    push_roll_math(&mut long, r);
                    push_str(&mut long, " vs DC ");
                    push_decimal(&mut long, *dc);
                },
                None => push_str(&mut long, "no roll needed"),
            }
            push_char(&mut long, ')');
            assert(long@ =~= t.0);
            Some(Line::new(long, told))
        },
        CombatEvent::Bribed { cost } => {
            let mut text = String::new();
            push_str(&mut text, "The party pays ");
            push_digits(&mut text, *cost);
            push_str(&mut text, " gold; they leave");
            assert(text@ =~= (spec_before_fight(*event, *names)->0).0);
            Some(Line::same(text))
        },
        _ => None,
    }
}

/// The text of the start of a fight.
pub open spec fn spec_surprise_text(surprised: Surprise) -> Seq<char> {
    match surprised {
        Surprise::Nobody => "Combat!"@,
        Surprise::Party => "Ambush! The party is surprised"@,
        Surprise::Monsters => "The monsters are surprised"@,
    }
}

/// `Brenna 18, Goblins 15`: the order of turns.
pub open spec fn spec_order(names: Names, order: Seq<(ActorRef, i64)>) -> Seq<char> {
    spec_join(
        Seq::new(order.len(), |i: int| names.spec_actor(order[i].0) + seq![' '] + spec_decimal(order[i].1 as int)),
        ", "@,
    )
}

/// The shape of the fight: its start, the order, rounds, and turns that need no die.
pub open spec fn spec_round(event: CombatEvent, names: Names) -> Option<(Seq<char>, Seq<char>)> {
    match event {
        CombatEvent::CombatStarted { surprised } => Some(same(spec_surprise_text(surprised))),
        CombatEvent::Initiative { order } => Some(same("Initiative: "@ + spec_order(names, order@))),
        CombatEvent::RoundStarted { round } => Some(same("Round "@ + spec_digits(round as nat))),
        CombatEvent::Waited { actor } => Some(same(names.spec_actor(actor) + " wait"@)),
        CombatEvent::Dodging { actor } => Some(same(names.spec_actor(actor) + " dodges"@)),
        CombatEvent::Exchanged { a, b } => Some(
            same(
                "Slots "@ + spec_digits((a + 1) as nat) + " and "@ + spec_digits((b + 1) as nat)
                    + " exchange"@,
            ),
        ),
        _ => None,
    }
}

fn round_line(event: &CombatEvent, names: &Names) -> (r: Option<Line>)
    ensures
        opt_line_is(r, spec_round(*event, *names)),
{
    let mut text = String::new();
    match event {
        CombatEvent::CombatStarted { surprised } => match surprised {
            Surprise::Nobody => push_str(&mut text, "Combat!"),
            Surprise::Party => push_str(&mut text, "Ambush! The party is surprised"),
            Surprise::Monsters => push_str(&mut text, "The monsters are surprised"),
        },
        CombatEvent::Initiative { order } => {
            let mut parts: Vec<String> = Vec::new();
            let mut i: usize = 0;
            while i < order.len()
                invariant
                    i <= order@.len(),
                    parts@.len() == i,
                    forall|k: int|
                        0 <= k < i ==> #[trigger] parts@[k]@ == names.spec_actor(order@[k].0) + seq![' ']
                            + spec_decimal(order@[k].1 as int),
                decreases order@.len() - i,
            {
                let mut part = String::new();
                names.push_actor(&mut part, &order[i].0);
                push_char(&mut part, ' ');
                push_decimal(&mut part, order[i].1);
                assert(part@ =~= names.spec_actor(order@[i as int].0) + seq![' '] + spec_decimal(
                    order@[i as int].1 as int,
                ));
                parts.push(part);
                i = i + 1;
            }
            assert(views(parts@) =~= Seq::new(
                order@.len(),
                |k: int| names.spec_actor(order@[k].0) + seq![' '] + spec_decimal(order@[k].1 as int),
            ));
            push_str(&mut text, "Initiative: ");
            push_join(&mut text, parts.as_slice(), ", ");
        },
        CombatEvent::RoundStarted { round } => {
            push_str(&mut text, "Round ");
            push_digits(&mut text, *round as u64);
        },
        CombatEvent::Waited { actor } => {
            names.push_actor(&mut text, actor);
            push_str(&mut text, " wait");
        },
        CombatEvent::Dodging { actor } => {
            names.push_actor(&mut text, actor);
            push_str(&mut text, " dodges");
        },
        CombatEvent::Exchanged { a, b } => {
            push_str(&mut text, "Slots ");
            push_digits(&mut text, *a as u64 + 1);
            push_str(&mut text, " and ");
            push_digits(&mut text, *b as u64 + 1);
            push_str(&mut text, " exchange");
        },
        _ => {
            return None;
        },
    }
    assert(text@ =~= (spec_round(*event, *names)->0).0);
    Some(Line::same(text))
}


/// Traces joined by `sep`.
pub open spec fn spec_traces(rolls: Seq<RollTrace>, sep: Seq<char>) -> Seq<char> {
    spec_join(Seq::new(rolls.len(), |i: int| spec_trace_math(rolls[i])), sep)
}

/// Append the traces joined by `sep`.
pub fn push_traces(out: &mut String, rolls: &Vec<RollTrace>, sep: &str)
    ensures
        final(out)@ == old(out)@ + spec_traces(rolls@, sep@),
{
    let mut parts: Vec<String> = Vec::new();
    let mut i: usize = 0;
    while i < rolls.len()
        invariant
            i <= rolls@.len(),
            parts@.len() == i,
            forall|k: int| 0 <= k < i ==> #[trigger] parts@[k]@ == spec_trace_math(rolls@[k]),
        decreases rolls@.len() - i,
    {
        parts.push(trace_math(&rolls[i]));
        i = i + 1;
    }
    assert(views(parts@) =~= Seq::new(rolls@.len(), |k: int| spec_trace_math(rolls@[k])));
    push_join(out, parts.as_slice(), sep);
}

/// What a death save came to, in words.
pub open spec fn spec_death_save(who: Seq<char>, result: DeathSaveResult, successes: u8, failures: u8) -> Seq<char> {
    match result {
        DeathSaveResult::Success => who + " death save: success "@ + spec_digits(successes as nat) + "/3"@,
        DeathSaveResult::Failure => who + " death save: failure "@ + spec_digits(failures as nat) + "/3"@,
        DeathSaveResult::Stable => who + " is stable"@,
        DeathSaveResult::Revived => who + " comes to at 1 hp"@,
        DeathSaveResult::Died => who + " dies"@,
    }
}

/// How a fight ended, in words, before the fallen.
pub open spec fn spec_outcome_text(outcome: CombatOutcome, xp: u64, gold: u64) -> Seq<char> {
    match outcome {
        CombatOutcome::Victory => "Victory! "@ + spec_digits(xp as nat) + " XP each, "@ + spec_digits(
            gold as nat,
        ) + " gold"@,
        CombatOutcome::Fled => "The party gets away"@,
        CombatOutcome::Defeat => "The party has fallen"@,
    }
}

/// The names of the fallen, joined by commas.
pub open spec fn spec_fallen(names: Names, fallen: Seq<u64>) -> Seq<char> {
    spec_join(Seq::new(fallen.len(), |i: int| names.spec_member(fallen[i])), ", "@)
}

/// Blood: damage on its own, falling, death saves, conditions, deaths, and the end.
pub open spec fn spec_wound(event: CombatEvent, names: Names) -> Option<(Seq<char>, Seq<char>)> {
    match event {
        CombatEvent::Damage { target, kind, rolls, amount, adjust } => {
            let outcome = names.spec_actor(target) + " takes "@ + spec_decimal(amount as int) + seq![' ']
                + spec_lower(kind@) + spec_adjust_word(adjust);
            Some((outcome + " ("@ + spec_traces(rolls@, " + "@) + seq![')'], outcome))
        },
        CombatEvent::Down { target } => Some(same(names.spec_member(target) + " falls"@)),
        CombatEvent::Wounded { member, failures } => Some(
            same(
                names.spec_member(member) + " is wounded: "@ + spec_digits(failures as nat)
                    + " of 3 failures"@,
            ),
        ),
        CombatEvent::DeathSave { member, roll, result, successes, failures } => {
            let outcome = spec_death_save(names.spec_member(member), result, successes, failures);
            Some((outcome + " ("@ + spec_trace_math(roll) + seq![')'], outcome))
        },
        CombatEvent::Condition { target, condition, applied } => Some(
            same(
                names.spec_actor(target) + " is "@ + (if applied {
                    Seq::empty()
                } else {
                    "no longer "@
                }) + names.spec_condition(condition),
            ),
        ),
        CombatEvent::Death { target, gold } => match gold {
            Some(trace) => {
                let outcome = names.spec_actor(target) + " dies, dropping "@ + spec_decimal(
                    trace.total as int,
                ) + " gold"@;
                Some((outcome + " ("@ + spec_trace_math(trace) + seq![')'], outcome))
            },
            None => Some(same(names.spec_actor(target) + " dies"@)),
        },
        CombatEvent::CombatEnded { outcome, xp, gold, fallen } => Some(
            same(
                spec_outcome_text(outcome, xp, gold) + (if fallen@.len() == 0 {
                    Seq::empty()
                } else {
                    "; lost: "@ + spec_fallen(names, fallen@)
                }),
            ),
        ),
        _ => None,
    }
}

/// One line for damage on its own, a fall, a death save, a condition, a death, or the end
/// of a fight; `None` for any other event.
pub fn wound_line(event: &CombatEvent, names: &Names) -> (r: Option<Line>)
    ensures
        opt_line_is(r, spec_wound(*event, *names)),
{
    match event {
        CombatEvent::Damage { target, kind, rolls, amount, adjust } => {
            let mut outcome = String::new();
            names.push_actor(&mut outcome, target);
            push_str(&mut outcome, " takes ");
            push_decimal(&mut outcome, *amount);
            push_char(&mut outcome, ' ');
            push_lower(&mut outcome, kind.as_str());
            push_adjust_word(&mut outcome, *adjust);
            let ghost t = spec_wound(*event, *names)->0;
            assert(outcome@ =~= t.1);
            let mut long = outcome.clone();
            push_str(&mut long, " (");
            push_traces(&mut long, rolls, " + ");
            push_char(&mut long, ')');
            assert(long@ =~= t.0);
            Some(Line::new(long, outcome))
        },
        CombatEvent::Down { target } => {
            let mut text = String::new();
            names.push_member(&mut text, *target);
            push_str(&mut text, " falls");
            assert(text@ =~= (spec_wound(*event, *names)->0).0);
            Some(Line::same(text))
        },
        CombatEvent::Wounded { member, failures } => {
            let mut text = String::new();
            names.push_member(&mut text, *member);
            push_str(&mut text, " is wounded: ");
            push_digits(&mut text, *failures as u64);
            push_str(&mut text, " of 3 failures");
            assert(text@ =~= (spec_wound(*event, *names)->0).0);
            Some(Line::same(text))
        },
        CombatEvent::DeathSave { member, roll, result, successes, failures } => {
            let mut outcome = String::new();
            names.push_member(&mut outcome, *member);
            match result {
                DeathSaveResult::Success => {
                    push_str(&mut outcome, " death save: success ");
                    push_digits(&mut outcome, *successes as u64);
                    push_str(&mut outcome, "/3");
                },
                DeathSaveResult::Failure => {
                    push_str(&mut outcome, " death save: failure ");
                    push_digits(&mut outcome, *failures as u64);
                    push_str(&mut outcome, "/3");
                },
                DeathSaveResult::Stable => push_str(&mut outcome, " is stable"),
                DeathSaveResult::Revived => push_str(&mut outcome, " comes to at 1 hp"),
                DeathSaveResult::Died => push_str(&mut outcome, " dies"),
            }
            let ghost t = spec_wound(*event, *names)->0;
            assert(outcome@ =~= t.1);
            let mut long = outcome.clone();
            push_str(&mut long, " (");
            push_trace_math(&mut long, roll);
            push_char(&mut long, ')');
            assert(long@ =~= t.0);
            Some(Line::new(long, outcome))
        },
        CombatEvent::Condition { target, condition, applied } => {
            let mut text = String::new();
            names.push_actor(&mut text, target);
            push_str(&mut text, " is ");
            if !*applied {
                push_str(&mut text, "no longer ");
            }
            names.push_condition(&mut text, *condition);
            assert(text@ =~= (spec_wound(*event, *names)->0).0);
            Some(Line::same(text))
        },
        CombatEvent::Death { target, gold } => {
            let mut outcome = String::new();
            names.push_actor(&mut outcome, target);
            match gold {
                Some(trace) => {
                    push_str(&mut outcome, " dies, dropping ");
                    push_decimal(&mut outcome, trace.total);
                    push_str(&mut outcome, " gold");
                    let ghost t = spec_wound(*event, *names)->0;
                    assert(outcome@ =~= t.1);
                    let mut long = outcome.clone();
                    push_str(&mut long, " (");
                    push_trace_math(&mut long, trace);
                    push_char(&mut long, ')');
                    assert(long@ =~= t.0);
                    Some(Line::new(long, outcome))
                },
                None => {
                    push_str(&mut outcome, " dies");
                    assert(outcome@ =~= (spec_wound(*event, *names)->0).0);
                    Some(Line::same(outcome))
                },
            }
        },
        CombatEvent::CombatEnded { outcome, xp, gold, fallen } => {
            let mut text = String::new();
            match outcome {
                CombatOutcome::Victory => {
                    push_str(&mut text, "Victory! ");
                    push_digits(&mut text, *xp);
                    push_str(&mut text, " XP each, ");
                    push_digits(&mut text, *gold);
                    push_str(&mut text, " gold");
                },
                CombatOutcome::Fled => push_str(&mut text, "The party gets away"),
                CombatOutcome::Defeat => push_str(&mut text, "The party has fallen"),
            }
            assert(text@ =~= spec_outcome_text(*outcome, *xp, *gold));
            if fallen.len() > 0 {
                let mut parts: Vec<String> = Vec::new();
                let mut i: usize = 0;
                while i < fallen.len()
                    invariant
                        i <= fallen@.len(),
                        parts@.len() == i,
                        forall|k: int| 0 <= k < i ==> #[trigger] parts@[k]@ == names.spec_member(fallen@[k]),
                    decreases fallen@.len() - i,
                {
                    parts.push(names.member(fallen[i]));
                    i = i + 1;
                }
                assert(views(parts@) =~= Seq::new(fallen@.len(), |k: int| names.spec_member(fallen@[k])));
                push_str(&mut text, "; lost: ");
                push_join(&mut text, parts.as_slice(), ", ");
            }
            assert(text@ =~= (spec_wound(*event, *names)->0).0);
            Some(Line::same(text))
        },
        _ => None,
    }
}


/// One line for an event that stands alone, or none for the silent ones.
pub open spec fn spec_event(event: CombatEvent, names: Names) -> Option<(Seq<char>, Seq<char>)> {
    if spec_before_fight(event, names) is Some {
        spec_before_fight(event, names)
    } else if spec_round(event, names) is Some {
        spec_round(event, names)
    } else if spec_wound(event, names) is Some {
        spec_wound(event, names)
    } else {
        spec_spell(event, names)
    }
}

fn event_line(event: &CombatEvent, names: &Names) -> (r: Option<Line>)
    ensures
        opt_line_is(r, spec_event(*event, *names)),
{
    let line = before_fight_line(event, names);
    if line.is_some() {
        return line;
    }
    let line = round_line(event, names);
    if line.is_some() {
        return line;
    }
    let line = wound_line(event, names);
    if line.is_some() {
        return line;
    }
    spell_line(event, names)
}

/// Whether `next` is the damage of the attack `attack`: the attack hit, and the damage fell
/// on its target.
pub open spec fn spec_folds(attack: CombatEvent, next: CombatEvent) -> bool {
    match attack {
        CombatEvent::AttackResolved { target, hit, .. } => match next {
            CombatEvent::Damage { target: hurt, .. } => hit && hurt == target,
            _ => false,
        },
        _ => false,
    }
}

/// The damage an attack line folds in: what `next` dealt, when it is the attack's damage.
pub open spec fn spec_folded(attack: CombatEvent, next: CombatEvent) -> Option<(i64, DamageAdjust)> {
    if spec_folds(attack, next) {
        match next {
            CombatEvent::Damage { amount, adjust, .. } => Some((amount, adjust)),
            _ => None,
        }
    } else {
        None
    }
}

/// The texts of an attack event, with `damage` folded in.
pub open spec fn spec_attack_event(
    event: CombatEvent,
    names: Names,
    damage: Option<(i64, DamageAdjust)>,
) -> (Seq<char>, Seq<char>) {
    match event {
        CombatEvent::AttackResolved { attacker, target, roll, ac, hit, crit } => spec_attack_texts(
            names,
            attacker,
            target,
            roll,
            ac,
            hit,
            crit,
            damage,
        ),
        _ => same(Seq::empty()),
    }
}

/// The lines for one command's events, in order. An attack and the damage that follows it
/// make one line; the silent events make none.
pub open spec fn spec_batch(events: Seq<CombatEvent>, names: Names) -> Seq<(Seq<char>, Seq<char>)>
    decreases events.len(),
{
    if events.len() == 0 {
        Seq::empty()
    } else if events[0] is AttackResolved {
        if events.len() > 1 && spec_folds(events[0], events[1]) {
            seq![spec_attack_event(events[0], names, spec_folded(events[0], events[1]))] + spec_batch(
                events.skip(2),
                names,
            )
        } else {
            seq![spec_attack_event(events[0], names, None)] + spec_batch(events.skip(1), names)
        }
    } else {
        match spec_event(events[0], names) {
            Some(t) => seq![t] + spec_batch(events.skip(1), names),
            None => spec_batch(events.skip(1), names),
        }
    }
}

/// The lines for one command's events, in order. An attack and the damage that follows it
/// make one line; encounter checks, monster turns, and exploration events make none.
pub fn batch_lines(events: &[CombatEvent], names: &Names) -> (r: Vec<Line>)
    ensures
        lines_are(r@, spec_batch(events@, *names)),
{
    let mut lines: Vec<Line> = Vec::new();
    let ghost mut done: Seq<(Seq<char>, Seq<char>)> = Seq::empty();
    let mut i: usize = 0;
    assert(events@.skip(0) =~= events@);
    assert(done + spec_batch(events@, *names) =~= spec_batch(events@, *names));
    while i < events.len()
        invariant
            i <= events@.len(),
            lines_are(lines@, done),
            done + spec_batch(events@.skip(i as int), *names) == spec_batch(events@, *names),
        decreases events@.len() - i,
    {
        let ghost rest = events@.skip(i as int);
        assert(rest[0] == events@[i as int]);
        assert(rest.skip(1) =~= events@.skip(i + 1));
        match &events[i] {
            CombatEvent::AttackResolved { attacker, target, roll, ac, hit, crit } => {
                let mut damage: Option<(i64, DamageAdjust)> = None;
                if i + 1 < events.len() {
                    assert(rest[1] == events@[i + 1]);
                    assert(rest.skip(2) =~= events@.skip(i + 2));
                    match &events[i + 1] {
                        CombatEvent::Damage { target: hurt, amount, adjust, .. } => {
                            if *hit && *hurt == *target {
                                damage = Some((*amount, *adjust));
                            }
                        },
                        _ => {},
                    }
                }
                let line = attack_line(names, attacker, target, roll, *ac, *hit, *crit, damage);
                let ghost t = spec_attack_event(events@[i as int], *names, damage);
                lines.push(line);
                proof {
                    done = done.push(t);
                    assert(lines@.last() == line);
                }
                if damage.is_some() {
                    proof {
                        assert(spec_folds(rest[0], rest[1]));
                        assert(spec_folded(rest[0], rest[1]) == damage);
                        assert(done.drop_last() + (seq![t] + spec_batch(rest.skip(2), *names)) =~= done
                            + spec_batch(rest.skip(2), *names));
                    }
                    i = i + 2;
                } else {
                    proof {
                        assert(!(rest.len() > 1 && spec_folds(rest[0], rest[1])));
                        assert(done.drop_last() + (seq![t] + spec_batch(rest.skip(1), *names)) =~= done
                            + spec_batch(rest.skip(1), *names));
                    }
                    i = i + 1;
                }
            },
            _ => {
                let line = event_line(&events[i], names);
                match line {
                    Some(l) => {
                        let ghost t = spec_event(events@[i as int], *names)->0;
                        lines.push(l);
                        proof {
                            assert(done + (seq![t] + spec_batch(rest.skip(1), *names)) =~= done.push(t)
                                + spec_batch(rest.skip(1), *names));
                            done = done.push(t);
                        }
                    },
                    None => {},
                }
                i = i + 1;
            },
        }
    }
    assert(events@.skip(events@.len() as int) =~= Seq::<CombatEvent>::empty());
    assert(done + Seq::<(Seq<char>, Seq<char>)>::empty() =~= done);
    lines
}

/// An attack that hits and the damage to its target right after it make one line, the
/// amount folded into the attack's words; after a miss, or on another target, the damage
/// makes a line of its own.
pub proof fn lemma_attack_and_its_damage_make_one_line(
    attack: CombatEvent,
    damage: CombatEvent,
    rest: Seq<CombatEvent>,
    names: Names,
)
    requires
        attack is AttackResolved,
        damage is Damage,
    ensures
        spec_folds(attack, damage) ==> spec_batch(seq![attack, damage] + rest, names) == seq![
            spec_attack_event(attack, names, spec_folded(attack, damage)),
        ] + spec_batch(rest, names),
        !spec_folds(attack, damage) ==> spec_batch(seq![attack, damage] + rest, names) == seq![
            spec_attack_event(attack, names, None),
            spec_wound(damage, names)->0,
        ] + spec_batch(rest, names),
{
    let all = seq![attack, damage] + rest;
    assert(all[0] == attack);
    assert(all[1] == damage);
    assert(all.skip(2) =~= rest);
    let tail = all.skip(1);
    assert(tail[0] == damage);
    assert(tail.skip(1) =~= rest);
    if !spec_folds(attack, damage) {
        assert(spec_before_fight(damage, names) is None);
        assert(spec_round(damage, names) is None);
        assert(spec_event(damage, names) == spec_wound(damage, names));
        assert(spec_batch(tail, names) == seq![spec_wound(damage, names)->0] + spec_batch(rest, names));
        assert(seq![spec_attack_event(attack, names, None)] + (seq![spec_wound(damage, names)->0]
            + spec_batch(rest, names)) =~= seq![
            spec_attack_event(attack, names, None),
            spec_wound(damage, names)->0,
        ] + spec_batch(rest, names));
    }
}

/// Every line fits its cells: the long text the band's message line, the short one a roll
/// log row; each is the start of its whole text.
pub proof fn lemma_lines_fit(lines: Seq<Line>, texts: Seq<(Seq<char>, Seq<char>)>)
    requires
        lines_are(lines, texts),
    ensures
        forall|k: int|
            0 <= k < lines.len() ==> {
                &&& (#[trigger] lines[k]).long@.len() <= LONG_CELLS
                &&& lines[k].short@.len() <= SHORT_CELLS
                &&& lines[k].long@ == texts[k].0.take(lines[k].long@.len() as int)
                &&& lines[k].short@ == texts[k].1.take(lines[k].short@.len() as int)
            },
{
    assert forall|k: int| 0 <= k < lines.len() implies {
        &&& (#[trigger] lines[k]).long@.len() <= LONG_CELLS
        &&& lines[k].short@.len() <= SHORT_CELLS
        &&& lines[k].long@ == texts[k].0.take(lines[k].long@.len() as int)
        &&& lines[k].short@ == texts[k].1.take(lines[k].short@.len() as int)
    } by {
        assert(line_is(lines[k], texts[k]));
        lemma_fit_prefix(texts[k].0, LONG_CELLS as int);
        lemma_fit_prefix(texts[k].1, SHORT_CELLS as int);
    }
}

/// After a refresh a member keeps the name last learned: the new list's where it names the
/// member, else the one remembered from before, so members who left still read.
pub proof fn lemma_refresh_remembers(before: Seq<(u64, String)>, learned: Seq<(u64, String)>, id: u64)
    ensures
        (exists|k: int| 0 <= k < learned.len() && (#[trigger] learned[k]).0 == id) ==> spec_lookup_u64(
            before + learned,
            id,
        ) == spec_lookup_u64(learned, id),
        (forall|k: int| 0 <= k < learned.len() ==> (#[trigger] learned[k]).0 != id) ==> spec_lookup_u64(
            before + learned,
            id,
        ) == spec_lookup_u64(before, id),
    decreases learned.len(),
{
    if learned.len() == 0 {
        assert(before + learned =~= before);
    } else {
        let d = learned.drop_last();
        lemma_refresh_remembers(before, d, id);
        assert((before + learned).drop_last() =~= before + d);
        assert((before + learned).last() == learned.last());
        if learned.last().0 != id {
            if exists|k: int| 0 <= k < learned.len() && (#[trigger] learned[k]).0 == id {
                let k = choose|k: int| 0 <= k < learned.len() && (#[trigger] learned[k]).0 == id;
                assert(k < d.len());
                assert(d[k] == learned[k]);
            }
            if forall|k: int| 0 <= k < learned.len() ==> (#[trigger] learned[k]).0 != id {
                assert forall|k: int| 0 <= k < d.len() implies (#[trigger] d[k]).0 != id by {
                    assert(d[k] == learned[k]);
                }
            }
        } else {
            assert(learned[learned.len() - 1].0 == id);
        }
    }
}

/// Whether `text` ends with `tail`.
pub open spec fn ends_with(text: Seq<char>, tail: Seq<char>) -> bool {
    text.len() >= tail.len() && text.subrange(text.len() - tail.len(), text.len() as int) == tail
}

/// Whether `text` starts with `head`.
pub open spec fn starts_with(text: Seq<char>, head: Seq<char>) -> bool {
    text.len() >= head.len() && text.subrange(0, head.len() as int) == head
}

/// A check's line says how it went: the short text ends in `failure` exactly when the check
/// failed and in `success` exactly when it succeeded, names the actor first, and the long
/// text is the short one followed by the math, or by `(no roll needed)` without a roll.
pub proof fn lemma_check_line_tells_the_outcome(
    actor: ActorRef,
    kind: CheckKind,
    roll: Option<Roll>,
    dc: i64,
    success: bool,
    names: Names,
)
    ensures
        ({
            let t = spec_before_fight(CombatEvent::Check { actor, kind, roll, dc, success }, names)->0;
            &&& ends_with(t.1, "failure"@) <==> !success
            &&& ends_with(t.1, "success"@) <==> success
            &&& starts_with(t.1, names.spec_actor(actor) + seq![' '])
            &&& starts_with(t.0, t.1)
            &&& roll is None ==> t.0 == t.1 + " (no roll needed)"@
        }),
{
    reveal_strlit("failure");
    reveal_strlit("success");
    reveal_strlit(" (no roll needed)");
    reveal_strlit(" (");
    reveal_strlit("no roll needed");
    let t = spec_before_fight(CombatEvent::Check { actor, kind, roll, dc, success }, names)->0;
    let head = names.spec_actor(actor) + seq![' '];
    let word = if success { "success"@ } else { "failure"@ };
    let other = if success { "failure"@ } else { "success"@ };
    assert(t.1.subrange(t.1.len() - 7, t.1.len() as int) =~= word);
    assert(word[0] != other[0]);
    assert(t.1.subrange(0, head.len() as int) =~= head);
    assert(t.0.subrange(0, t.1.len() as int) =~= t.1);
    if roll is None {
        assert(t.0 =~= t.1 + " (no roll needed)"@);
    }
}

/// A condition's line says whether it came or went: `is` and the condition when applied,
/// `is no longer` and the condition when it ended.
pub proof fn lemma_condition_line_says_came_or_went(target: ActorRef, condition: u32, applied: bool, names: Names)
    ensures
        ({
            let t = spec_wound(CombatEvent::Condition { target, condition, applied }, names)->0;
            let who = names.spec_actor(target);
            let what = names.spec_condition(condition);
            &&& t.0 == t.1
            &&& applied ==> t.0 == who + " is "@ + what
            &&& !applied ==> t.0 == who + " is no longer "@ + what
        }),
{
    reveal_strlit(" is ");
    reveal_strlit("no longer ");
    reveal_strlit(" is no longer ");
    let t = spec_wound(CombatEvent::Condition { target, condition, applied }, names)->0;
    let who = names.spec_actor(target);
    let what = names.spec_condition(condition);
    if applied {
        assert(t.0 =~= who + " is "@ + what);
    } else {
        assert(t.0 =~= who + " is no longer "@ + what);
    }
}

/// An attack's line names the attacker, then `crits` on a critical, `hits` on another hit,
/// `misses` on a miss, then the target; the amount follows only when damage was folded in,
/// and the long text is the short one followed by the math against the armour class.
pub proof fn lemma_attack_line_says_how_it_landed(
    names: Names,
    attacker: ActorRef,
    target: ActorRef,
    roll: Roll,
    ac: i64,
    hit: bool,
    crit: bool,
    damage: Option<(i64, DamageAdjust)>,
)
    ensures
        ({
            let t = spec_attack_texts(names, attacker, target, roll, ac, hit, crit, damage);
            let who = names.spec_actor(attacker);
            let whom = names.spec_actor(target);
            &&& crit ==> starts_with(t.1, who + " crits "@ + whom)
            &&& hit && !crit ==> starts_with(t.1, who + " hits "@ + whom)
            &&& !hit && !crit ==> starts_with(t.1, who + " misses "@ + whom)
            &&& damage is None ==> t.1 == (if crit { who + " crits "@ + whom } else if hit { who + " hits "@ + whom } else { who + " misses "@ + whom })
            &&& damage matches Some((amount, adjust)) ==> ends_with(t.1, " for "@ + spec_decimal(amount as int) + spec_adjust_word(adjust))
            &&& starts_with(t.0, t.1)
            &&& ends_with(t.0, " vs AC "@ + spec_decimal(ac as int) + seq![')'])
        }),
{
    reveal_strlit("crits");
    reveal_strlit("hits");
    reveal_strlit("misses");
    reveal_strlit(" crits ");
    reveal_strlit(" hits ");
    reveal_strlit(" misses ");
    let t = spec_attack_texts(names, attacker, target, roll, ac, hit, crit, damage);
    let who = names.spec_actor(attacker);
    let whom = names.spec_actor(target);
    let verb = if crit { "crits"@ } else if hit { "hits"@ } else { "misses"@ };
    let told = who + seq![' '] + verb + seq![' '] + whom;
    let merged = if crit { who + " crits "@ + whom } else if hit { who + " hits "@ + whom } else { who + " misses "@ + whom };
    assert(told =~= merged);
    assert(t.1.subrange(0, told.len() as int) =~= told);
    match damage {
        Some((amount, adjust)) => {
            let tail = " for "@ + spec_decimal(amount as int) + spec_adjust_word(adjust);
            assert(t.1 =~= told + tail);
            assert(t.1.subrange(t.1.len() - tail.len(), t.1.len() as int) =~= tail);
        },
        None => {},
    }
    assert(t.0.subrange(0, t.1.len() as int) =~= t.1);
    let end = " vs AC "@ + spec_decimal(ac as int) + seq![')'];
    assert(t.0.subrange(t.0.len() - end.len(), t.0.len() as int) =~= end);
}

/// An encounter's short line is who stands there and their mood when the party noticed
/// them, and `Ambush!` before who stands there when it did not; the long line begins with
/// who stands there and their mood either way.
pub proof fn lemma_encounter_line_tells_an_ambush(
    stacks: Vec<u32>,
    disposition: String,
    stealth: Option<Roll>,
    perception: i64,
    noticed: bool,
    names: Names,
)
    ensures
        ({
            let t = spec_before_fight(
                CombatEvent::EncounterStarted { stacks, disposition, stealth, perception, noticed },
                names,
            )->0;
            let who = spec_who_stands(names, stacks@);
            let mood = spec_lower(disposition@);
            &&& noticed ==> t.1 == who + ", "@ + mood
            &&& !noticed ==> t.1 == "Ambush! "@ + who
            &&& starts_with(t.0, who + ", "@ + mood)
            &&& stealth is Some ==> ends_with(t.0, if noticed { "noticed)"@ } else { "surprised!)"@ })
            &&& stealth is None ==> t.0 == who + ", "@ + mood
        }),
{
    reveal_strlit("noticed");
    reveal_strlit("surprised!");
    reveal_strlit("noticed)");
    reveal_strlit("surprised!)");
    let t = spec_before_fight(
        CombatEvent::EncounterStarted { stacks, disposition, stealth, perception, noticed },
        names,
    )->0;
    let who = spec_who_stands(names, stacks@);
    let mood = spec_lower(disposition@);
    let head = who + ", "@ + mood;
    assert(t.0.subrange(0, head.len() as int) =~= head);
    if stealth is Some {
        let end = if noticed { "noticed)"@ } else { "surprised!)"@ };
        let word = if noticed { "noticed"@ } else { "surprised!"@ };
        assert(word + seq![')'] =~= end);
        assert(t.0.subrange(t.0.len() - end.len(), t.0.len() as int) =~= end);
    } else {
        assert(t.0 =~= head);
    }
}

/// A death save's line tells its result: the successes so far on a success, the failures
/// so far on a failure, `is stable`, `comes to at 1 hp` or `dies`; the long line adds the
/// die.
pub proof fn lemma_death_save_line_tells_the_result(
    member: u64,
    roll: RollTrace,
    result: DeathSaveResult,
    successes: u8,
    failures: u8,
    names: Names,
)
    ensures
        ({
            let t = spec_wound(CombatEvent::DeathSave { member, roll, result, successes, failures }, names)->0;
            let who = names.spec_member(member);
            &&& result is Success ==> t.1 == who + " death save: success "@ + spec_digits(successes as nat) + "/3"@
            &&& result is Failure ==> t.1 == who + " death save: failure "@ + spec_digits(failures as nat) + "/3"@
            &&& result is Stable ==> t.1 == who + " is stable"@
            &&& result is Revived ==> t.1 == who + " comes to at 1 hp"@
            &&& result is Died ==> t.1 == who + " dies"@
            &&& t.0 == t.1 + " ("@ + spec_trace_math(roll) + seq![')']
        }),
{
}

/// Damage on its own names the target, the amount, the damage type in lower case and what
/// resisting did: nothing more when taken in full, `(resisted)`, `(doubled)` or `(immune)`.
pub proof fn lemma_damage_line_names_the_adjustment(
    target: ActorRef,
    kind: String,
    rolls: Vec<RollTrace>,
    amount: i64,
    adjust: DamageAdjust,
    names: Names,
)
    ensures
        ({
            let t = spec_wound(CombatEvent::Damage { target, kind, rolls, amount, adjust }, names)->0;
            let told = names.spec_actor(target) + " takes "@ + spec_decimal(amount as int) + seq![' '] + spec_lower(kind@);
            &&& adjust is Full ==> t.1 == told
            &&& adjust is Resisted ==> t.1 == told + " (resisted)"@
            &&& adjust is Vulnerable ==> t.1 == told + " (doubled)"@
            &&& adjust is Immune ==> t.1 == told + " (immune)"@
            &&& starts_with(t.0, t.1 + " ("@)
        }),
{
    let t = spec_wound(CombatEvent::Damage { target, kind, rolls, amount, adjust }, names)->0;
    let told = names.spec_actor(target) + " takes "@ + spec_decimal(amount as int) + seq![' '] + spec_lower(kind@);
    assert(told + Seq::<char>::empty() =~= told);
    assert(t.0.subrange(0, (t.1 + " ("@).len() as int) =~= t.1 + " ("@);
}

/// A name in lower case keeps its length and every character that is no capital, and turns
/// each ASCII capital into its small letter.
pub proof fn lemma_lower_case(s: Seq<char>)
    ensures
        spec_lower(s).len() == s.len(),
        forall|i: int|
            0 <= i < s.len() ==> ('A' <= #[trigger] s[i] <= 'Z' ==> spec_lower(s)[i] as u32 == s[i] as u32 + 32
                && 'a' <= spec_lower(s)[i] <= 'z'),
        forall|i: int| 0 <= i < s.len() ==> (!('A' <= #[trigger] s[i] <= 'Z') ==> spec_lower(s)[i] == s[i]),
{
}

/// A death names who died, and the gold dropped and its dice when a monster dropped some.
pub proof fn lemma_death_line_tells_the_gold(target: ActorRef, gold: Option<RollTrace>, names: Names)
    ensures
        ({
            let t = spec_wound(CombatEvent::Death { target, gold }, names)->0;
            let who = names.spec_actor(target);
            &&& gold is None ==> t.0 == who + " dies"@ && t.1 == t.0
            &&& gold matches Some(g) ==> t.1 == who + " dies, dropping "@ + spec_decimal(g.total as int) + " gold"@
                && t.0 == t.1 + " ("@ + spec_trace_math(g) + seq![')']
        }),
{
}

/// The end of a fight says how it ended, the experience and gold of a victory, and the
/// fallen after `; lost:` when any fell.
pub proof fn lemma_end_line_tells_the_outcome(outcome: CombatOutcome, xp: u64, gold: u64, fallen: Vec<u64>, names: Names)
    ensures
        ({
            let t = spec_wound(CombatEvent::CombatEnded { outcome, xp, gold, fallen }, names)->0;
            let head = match outcome {
                CombatOutcome::Victory => "Victory! "@ + spec_digits(xp as nat) + " XP each, "@ + spec_digits(gold as nat)
                    + " gold"@,
                CombatOutcome::Fled => "The party gets away"@,
                CombatOutcome::Defeat => "The party has fallen"@,
            };
            &&& t.0 == t.1
            &&& fallen@.len() == 0 ==> t.0 == head
            &&& fallen@.len() > 0 ==> starts_with(t.0, head + "; lost: "@) && ends_with(
                t.0,
                names.spec_member(fallen@.last()),
            )
        }),
{
    let t = spec_wound(CombatEvent::CombatEnded { outcome, xp, gold, fallen }, names)->0;
    if fallen@.len() > 0 {
        let parts = Seq::new(fallen@.len(), |i: int| names.spec_member(fallen@[i]));
        let head = spec_outcome_text(outcome, xp, gold);
        assert(t.0.subrange(0, (head + "; lost: "@).len() as int) =~= head + "; lost: "@);
        lemma_join_ends_with_last(parts, ", "@);
        let j = spec_join(parts, ", "@);
        assert(parts.last() == names.spec_member(fallen@.last()));
        let last = parts.last();
        assert(j.subrange(j.len() - last.len(), j.len() as int) == last);
        assert(t.0.subrange(t.0.len() - last.len(), t.0.len() as int) =~= j.subrange(j.len() - last.len(), j.len() as int));
    }
}

/// A joined run ends with its last part.
pub proof fn lemma_join_ends_with_last(parts: Seq<Seq<char>>, sep: Seq<char>)
    requires
        parts.len() > 0,
    ensures
        ends_with(spec_join(parts, sep), parts.last()),
{
    let j = spec_join(parts, sep);
    if parts.len() == 1 {
        assert(j.subrange(0, j.len() as int) =~= j);
    } else {
        assert(j.subrange(j.len() - parts.last().len(), j.len() as int) =~= parts.last());
    }
}

/// The fight's start says who was surprised; a round names its number; two slots swapped
/// are counted from one.
pub proof fn lemma_round_lines(surprised: Surprise, round: u32, a: u32, b: u32, names: Names)
    ensures
        surprised is Nobody ==> (spec_round(CombatEvent::CombatStarted { surprised }, names)->0).0 == "Combat!"@,
        surprised is Party ==> (spec_round(CombatEvent::CombatStarted { surprised }, names)->0).0
            == "Ambush! The party is surprised"@,
        surprised is Monsters ==> (spec_round(CombatEvent::CombatStarted { surprised }, names)->0).0
            == "The monsters are surprised"@,
        (spec_round(CombatEvent::RoundStarted { round }, names)->0).0 == "Round "@ + spec_digits(round as nat),
        (spec_round(CombatEvent::Exchanged { a, b }, names)->0).0 == "Slots "@ + spec_digits(a as nat + 1) + " and "@
            + spec_digits(b as nat + 1) + " exchange"@,
{
}

/// A bonus is shown with its sign: `+` and its digits when positive, `-` and its digits when
/// negative, nothing when zero.
pub proof fn lemma_signed_shows_the_sign(bonus: int)
    ensures
        bonus > 0 ==> spec_signed(bonus) == seq!['+'] + spec_digits(bonus as nat),
        bonus < 0 ==> spec_signed(bonus) == seq!['-'] + spec_digits((-bonus) as nat),
        bonus == 0 ==> spec_signed(bonus).len() == 0,
{
}

/// A d20's math starts with its dice, `1d20` for one die, `2d20 adv` or `2d20 dis` for two,
/// then the bonus with its sign, and ends with `=` and the total.
pub proof fn lemma_roll_math_shows_mode_and_total(roll: Roll)
    ensures
        roll.mode is Normal ==> starts_with(spec_roll_math(roll), "1d20"@),
        roll.mode is Advantage ==> starts_with(spec_roll_math(roll), "2d20 adv"@),
        roll.mode is Disadvantage ==> starts_with(spec_roll_math(roll), "2d20 dis"@),
        ends_with(spec_roll_math(roll), seq!['='] + spec_decimal(roll.total as int)),
        ends_with(spec_trace_math(roll.trace), seq!['='] + spec_decimal(roll.trace.total as int)),
        starts_with(spec_trace_math(roll.trace), roll.trace.dice@ + seq![' ', '[']),
{
    let m = spec_roll_math(roll);
    let w = spec_dice_word(roll.mode);
    assert(m.subrange(0, w.len() as int) =~= w);
    let e = seq!['='] + spec_decimal(roll.total as int);
    assert(m.subrange(m.len() - e.len(), m.len() as int) =~= e);
    let tm = spec_trace_math(roll.trace);
    let te = seq!['='] + spec_decimal(roll.trace.total as int);
    assert(tm.subrange(tm.len() - te.len(), tm.len() as int) =~= te);
    let h = roll.trace.dice@ + seq![' ', '['];
    assert(tm.subrange(0, h.len() as int) =~= h);
}

} // verus!
