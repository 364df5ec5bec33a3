//! Triggered mana abilities, which resolve at once, without the stack (CR 605.1b).

use crate::ability::{Effect, ManaProduction, PlayerFilter, ResolvedAbility};
use crate::events::GameEvent;
use crate::ids::{ManaColor, ManaExpiry, ManaType, ObjectId, PlayerId};
use crate::list::{list_of, List};
use crate::object::{ChosenAttribute, ManaUnit, Player};
use crate::quantity::{
    event_player, extract_player_from_event, opt_event, quantity,
    resolve_quantity_for_trigger_check,
};
use crate::state::{Game, GameState};
use vstd::prelude::*;

verus! {

pub open spec fn mana_of(color: ManaColor) -> ManaType {
    match color {
        ManaColor::White => ManaType::White,
        ManaColor::Blue => ManaType::Blue,
        ManaColor::Black => ManaType::Black,
        ManaColor::Red => ManaType::Red,
        ManaColor::Green => ManaType::Green,
    }
}

fn to_mana(color: ManaColor) -> (r: ManaType)
    ensures
        r == mana_of(color),
{
    match color {
        ManaColor::White => ManaType::White,
        ManaColor::Blue => ManaType::Blue,
        ManaColor::Black => ManaType::Black,
        ManaColor::Red => ManaType::Red,
        ManaColor::Green => ManaType::Green,
    }
}

/// A number as a count of mana: none below zero, and no more than a machine can count.
pub open spec fn as_count(n: int) -> nat {
    if n <= 0 {
        0
    } else if n <= u32::MAX {
        n as nat
    } else {
        u32::MAX as nat
    }
}

pub fn to_count(n: i128) -> (r: u32)
    ensures
        r == as_count(n as int),
{
    if n <= 0 {
        0
    } else if n <= u32::MAX as i128 {
        n as u32
    } else {
        u32::MAX
    }
}

/// The color chosen for an object, where one was.
pub open spec fn chosen_color(attributes: List<ChosenAttribute>) -> Option<ManaColor>
    decreases attributes,
{
    match attributes.node {
        None => None,
        Some(n) => match *n.item {
            ChosenAttribute::Color(color) => Some(color),
            _ => chosen_color(n.rest),
        },
    }
}

fn find_chosen_color(attributes: &List<ChosenAttribute>) -> (r: Option<ManaColor>)
    ensures
        r == chosen_color(*attributes),
    decreases attributes,
{
    match &attributes.node {
        None => None,
        Some(n) => match &*n.item {
            ChosenAttribute::Color(color) => Some(*color),
            _ => find_chosen_color(&n.rest),
        },
    }
}

/// The mana that an ability makes. With several colors to choose from, it is the first.
pub open spec fn produced_mana(
    g: Game,
    produced: ManaProduction,
    source_id: ObjectId,
    controller: PlayerId,
    event: Option<GameEvent>,
) -> Seq<ManaType> {
    match produced {
        ManaProduction::Fixed { colors, .. } => Seq::new(
            colors@.len(),
            |i: int| mana_of(colors@[i]),
        ),
        ManaProduction::AnyOneColor { count, color_options, .. } => if color_options@.len() == 0 {
            seq![]
        } else {
            Seq::new(
                as_count(quantity(g, count, controller, source_id, event)),
                |i: int| mana_of(color_options@[0]),
            )
        },
        ManaProduction::ChosenColor { count, .. } => match g.object(source_id) {
            None => seq![],
            Some(o) => match chosen_color(o.chosen_attributes) {
                None => seq![],
                Some(color) => Seq::new(
                    as_count(quantity(g, count, controller, source_id, event)),
                    |i: int| mana_of(color),
                ),
            },
        },
    }
}

fn repeat_mana(mana: ManaType, n: u32) -> (r: Vec<ManaType>)
    ensures
        r@ == Seq::new(n as nat, |i: int| mana),
{
    let mut out: Vec<ManaType> = Vec::new();
    let mut i: u32 = 0;
    while i < n
        invariant
            i <= n,
            out@.len() == i,
            forall|j: int| 0 <= j < i ==> out@[j] == mana,
        decreases n - i,
    {
        out.push(mana);
        i = i + 1;
    }
    assert(out@ =~= Seq::new(n as nat, |j: int| mana));
    out
}

fn push_colors(out: &mut Vec<ManaType>, colors: &List<ManaColor>)
    ensures
        final(out)@ == old(out)@ + Seq::new(colors@.len(), |i: int| mana_of(colors@[i])),
    decreases colors,
{
    match &colors.node {
        None => {},
        Some(n) => {
            out.push(to_mana(*n.item));
            push_colors(out, &n.rest);
        },
    }
    assert(out@ =~= old(out)@ + Seq::new(colors@.len(), |i: int| mana_of(colors@[i])));
}

fn produce(
    state: &GameState,
    produced: &ManaProduction,
    source_id: ObjectId,
    controller: PlayerId,
    event: Option<&GameEvent>,
) -> (r: Vec<ManaType>)
    ensures
        r@ == produced_mana(state@, *produced, source_id, controller, opt_event(event)),
{
    let out = match produced {
        ManaProduction::Fixed { colors, .. } => {
            let mut out: Vec<ManaType> = Vec::new();
            push_colors(&mut out, colors);
            out
        },
        ManaProduction::AnyOneColor { count, color_options, .. } => match color_options.get(0) {
            None => Vec::new(),
            Some(color) => repeat_mana(
                to_mana(*color),
                to_count(
                    resolve_quantity_for_trigger_check(state, count, controller, source_id, event),
                ),
            ),
        },
        ManaProduction::ChosenColor { count, .. } => match state.objects.get(&source_id) {
            None => Vec::new(),
            Some(o) => match find_chosen_color(&o.chosen_attributes) {
                None => Vec::new(),
                Some(color) => repeat_mana(
                    to_mana(color),
                    to_count(
                        resolve_quantity_for_trigger_check(
                            state,
                            count,
                            controller,
                            source_id,
                            event,
                        ),
                    ),
                ),
            },
        },
    };
    assert(out@ =~= produced_mana(state@, *produced, source_id, controller, opt_event(event)));
    out
}

/// Whether a triggered ability that takes no targets is a mana ability: it triggers on mana being
/// made, and makes mana.
pub open spec fn is_mana_ability(ability: ResolvedAbility, event: Option<GameEvent>) -> bool {
    *ability.effect is Mana && event is Some && event->0 is ManaAdded
}

pub fn is_triggered_mana_ability(ability: &ResolvedAbility, event: Option<&GameEvent>) -> (r: bool)
    ensures
        r == is_mana_ability(*ability, opt_event(event)),
{
    (match &*ability.effect {
        Effect::Mana { .. } => true,
        _ => false,
    }) && match event {
        Some(GameEvent::ManaAdded { .. }) => true,
        _ => false,
    }
}

/// Who gets the mana: the ability's controller, or the player whose tap triggered it where the
/// ability says so.
pub open spec fn mana_recipient(ability: ResolvedAbility, event: Option<GameEvent>) -> PlayerId {
    match (ability.player_scope, event) {
        (Some(PlayerFilter::TriggeringPlayer), Some(e)) => match event_player(e) {
            None => ability.controller,
            Some(player) => player,
        },
        _ => ability.controller,
    }
}

fn find_mana_recipient(ability: &ResolvedAbility, event: Option<&GameEvent>) -> (r: PlayerId)
    ensures
        r == mana_recipient(*ability, opt_event(event)),
{
    match (ability.player_scope, event) {
        (Some(PlayerFilter::TriggeringPlayer), Some(e)) => match extract_player_from_event(e) {
            None => ability.controller,
            Some(player) => player,
        },
        _ => ability.controller,
    }
}

pub open spec fn mana_units(
    types: Seq<ManaType>,
    source_id: ObjectId,
    expiry: Option<ManaExpiry>,
) -> Seq<ManaUnit> {
    Seq::new(types.len(), |i: int| ManaUnit { mana_type: types[i], source_id, expiry })
}

/// The game after a triggered mana ability.
pub open spec fn mana_made(g: Game, ability: ResolvedAbility, event: Option<GameEvent>) -> Game {
    match *ability.effect {
        Effect::Mana { produced, expiry, .. } => {
            let player = mana_recipient(ability, event);
            let types = produced_mana(g, produced, ability.source_id, player, event);
            match g.player(player) {
                None => g,
                Some(p) => g.set_player(
                    player,
                    Player {
                        mana_pool: list_of(
                            p.mana_pool@ + mana_units(types, ability.source_id, expiry),
                        ),
                        ..p
                    },
                ),
            }
        },
        _ => g,
    }
}

pub fn resolve_triggered_mana_ability_inline(
    state: &mut GameState,
    ability: &ResolvedAbility,
    event: Option<&GameEvent>,
)
    ensures
        final(state)@ == mana_made(old(state)@, *ability, opt_event(event)),
{
    if let Effect::Mana { produced, expiry, .. } = &*ability.effect {
        let player = find_mana_recipient(ability, event);
        let types = produce(state, produced, ability.source_id, player, event);
        let mut units: Vec<ManaUnit> = Vec::new();
        let mut i: usize = 0;
        while i < types.len()
            invariant
                i <= types@.len(),
                units@.len() == i,
                forall|j: int|
                    0 <= j < i ==> #[trigger] units@[j] == (ManaUnit {
                        mana_type: types@[j],
                        source_id: ability.source_id,
                        expiry: *expiry,
                    }),
            decreases types@.len() - i,
        {
            units.push(
                ManaUnit { mana_type: types[i], source_id: ability.source_id, expiry: *expiry },
            );
            i = i + 1;
        }
        assert(units@ =~= mana_units(types@, ability.source_id, *expiry));
        let seat: usize = state.find_seat(player);
        if seat < state.players.len() {
            let pool = state.players[seat].mana_pool.join(List::from_vec(units));
            state.players[seat].mana_pool = pool;
        }
    }
}

} // verus!
