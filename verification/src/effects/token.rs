//! Tokens (CR 111).

use crate::ability::{Keyword, PtValue, TokenRider};
use crate::events::{kinds_of, GameEvent, ZoneChangeRecord};
use crate::ids::{CardId, CoreType, ManaColor, ObjectId, PlayerId, Supertype, Zone};
use crate::layers::clamped;
use crate::list::List;
use crate::mana::{as_count, to_count};
use crate::object::{CardType, GameObject};
use crate::quantity::{quantity, resolve_quantity_for_trigger_check};
use crate::state::{Game, GameState, Play};
use crate::text::Text;
use crate::zones::{create_object, object_created};
use std::rc::Rc;
use vstd::prelude::*;

verus! {

/// What a kind of token is like.
#[derive(Debug, PartialEq, Eq)]
pub struct TokenKind {
    pub name: Text,
    pub power: i32,
    pub toughness: i32,
    pub supertypes: List<Supertype>,
    pub core_types: List<CoreType>,
    pub subtypes: List<Text>,
    pub colors: List<ManaColor>,
    pub keywords: List<Keyword>,
    pub tapped: bool,
}

/// A number written on a token.
pub open spec fn token_number(g: Game, value: PtValue, rider: TokenRider) -> i32 {
    match value {
        PtValue::Fixed(n) => n,
        PtValue::Quantity(expr) => clamped(
            quantity(g, expr, rider.controller, rider.source_id, None),
        ),
    }
}

fn find_token_number(state: &GameState, value: &PtValue, rider: &TokenRider) -> (r: i32)
    ensures
        r == token_number(state@, *value, *rider),
{
    match value {
        PtValue::Fixed(n) => *n,
        PtValue::Quantity(expr) => {
            let n: i128 = resolve_quantity_for_trigger_check(
                state,
                expr,
                rider.controller,
                rider.source_id,
                None,
            );
            if n < i32::MIN as i128 {
                i32::MIN
            } else if n > i32::MAX as i128 {
                i32::MAX
            } else {
                n as i32
            }
        },
    }
}

/// How often the tokens are made: as often as a quantity says, or once where there is none.
pub open spec fn repetitions(g: Game, rider: TokenRider) -> nat {
    match rider.repeat_for {
        None => 1,
        Some(expr) => as_count(quantity(g, expr, rider.controller, rider.source_id, None)),
    }
}

fn find_repetitions(state: &GameState, rider: &TokenRider) -> (r: u32)
    ensures
        r == repetitions(state@, *rider),
{
    match &rider.repeat_for {
        None => 1,
        Some(expr) => to_count(
            resolve_quantity_for_trigger_check(
                state,
                expr,
                rider.controller,
                rider.source_id,
                None,
            ),
        ),
    }
}

/// A new token.
pub open spec fn token_object(o: GameObject, kind: TokenKind, turn: u32) -> GameObject {
    GameObject {
        is_token: true,
        power: Some(kind.power),
        toughness: Some(kind.toughness),
        card_types: CardType {
            supertypes: kind.supertypes,
            core_types: kind.core_types,
            subtypes: kind.subtypes,
        },
        colors: kind.colors,
        keywords: kind.keywords,
        tapped: kind.tapped,
        entered_battlefield_turn: Some(turn),
        ..o
    }
}

fn write_token(o: &mut GameObject, kind: &TokenKind, turn: u32)
    ensures
        *final(o) == token_object(*old(o), *kind, turn),
{
    o.is_token = true;
    o.power = Some(kind.power);
    o.toughness = Some(kind.toughness);
    o.card_types.supertypes = kind.supertypes.clone();
    o.card_types.core_types = kind.core_types.clone();
    o.card_types.subtypes = kind.subtypes.clone();
    o.colors = kind.colors.clone();
    o.keywords = kind.keywords.clone();
    o.tapped = kind.tapped;
    o.entered_battlefield_turn = Some(turn);
}

/// What is told of a token that enters: it comes from no zone.
pub open spec fn token_record(kind: TokenKind, id: ObjectId, controller: PlayerId) ->
    ZoneChangeRecord {
    ZoneChangeRecord {
        object_id: id,
        name: kind.name,
        core_types: kind.core_types,
        subtypes: kind.subtypes,
        supertypes: kind.supertypes,
        keywords: crate::events::keyword_kinds(kind.keywords),
        power: Some(kind.power),
        toughness: Some(kind.toughness),
        mana_value: 0,
        controller,
        owner: controller,
        from_zone: None,
        to_zone: Zone::Battlefield,
        is_token: true,
        is_commander: false,
    }
}

/// A token created under a player's control.
#[verifier::opaque]
pub open spec fn token_created(p: Play, kind: TokenKind, controller: PlayerId) -> Play {
    let id = ObjectId(p.game.next_object_id);
    let g = object_created(p.game, CardId(0), controller, kind.name, Zone::Battlefield);
    Play {
        game: match g.object(id) {
            None => g,
            Some(o) => Game {
                layers_dirty: true,
                ..g.set_object(id, token_object(o, kind, g.turn_number))
            },
        },
        events: p.events.push(
            GameEvent::ZoneChanged {
                object_id: id,
                from: None,
                to: Zone::Battlefield,
                record: Rc::new(token_record(kind, id, controller)),
            },
        ).push(GameEvent::TokenCreated { object_id: id, name: kind.name }),
    }
}

fn create_token(
    state: &mut GameState,
    kind: &TokenKind,
    controller: PlayerId,
    events: &mut Vec<GameEvent>,
)
    ensures
        (Play { game: final(state)@, events: final(events)@ }) == token_created(
            Play { game: old(state)@, events: old(events)@ },
            *kind,
            controller,
        ),
{
    proof {
        reveal(token_created);
    }
    let id = create_object(state, CardId(0), controller, kind.name.clone(), Zone::Battlefield);
    let turn: u32 = state.turn_number;
    if let Some(o) = state.objects.get_mut(&id) {
        write_token(o, kind, turn);
        state.layers_dirty = true;
    }
    let record = ZoneChangeRecord {
        object_id: id,
        name: kind.name.clone(),
        core_types: kind.core_types.clone(),
        subtypes: kind.subtypes.clone(),
        supertypes: kind.supertypes.clone(),
        keywords: kinds_of(&kind.keywords),
        power: Some(kind.power),
        toughness: Some(kind.toughness),
        mana_value: 0,
        controller,
        owner: controller,
        from_zone: None,
        to_zone: Zone::Battlefield,
        is_token: true,
        is_commander: false,
    };
    events.push(
        GameEvent::ZoneChanged {
            object_id: id,
            from: None,
            to: Zone::Battlefield,
            record: Rc::new(record),
        },
    );
    events.push(GameEvent::TokenCreated { object_id: id, name: kind.name.clone() });
}

pub open spec fn tokens_created(p: Play, kind: TokenKind, controller: PlayerId, n: nat) -> Play
    decreases n,
{
    if n == 0 {
        p
    } else {
        token_created(tokens_created(p, kind, controller, (n - 1) as nat), kind, controller)
    }
}

/// The tokens of a rider as they are when it makes them.
pub open spec fn token_kind(g: Game, rider: TokenRider) -> TokenKind {
    TokenKind {
        name: rider.tokens.name,
        power: token_number(g, rider.tokens.power, rider),
        toughness: token_number(g, rider.tokens.toughness, rider),
        supertypes: rider.tokens.supertypes,
        core_types: rider.tokens.core_types,
        subtypes: rider.tokens.subtypes,
        colors: rider.tokens.colors,
        keywords: rider.tokens.keywords,
        tapped: rider.tokens.tapped,
    }
}

/// How many tokens a rider makes: so many at a time, and so many times over.
pub open spec fn token_count(g: Game, rider: TokenRider) -> nat {
    as_count(quantity(g, rider.tokens.count, rider.controller, rider.source_id, None))
        * repetitions(g, rider)
}

/// The tokens of a rider, made under its controller's control.
pub open spec fn tokens_made(p: Play, rider: TokenRider) -> Play {
    tokens_created(p, token_kind(p.game, rider), rider.controller, token_count(p.game, rider))
}

/// Creates the tokens of a rider under its controller's control.
pub fn resolve(state: &mut GameState, rider: &TokenRider, events: &mut Vec<GameEvent>)
    ensures
        (Play { game: final(state)@, events: final(events)@ }) == tokens_made(
            Play { game: old(state)@, events: old(events)@ },
            *rider,
        ),
{
    let kind = TokenKind {
        name: rider.tokens.name.clone(),
        power: find_token_number(state, &rider.tokens.power, rider),
        toughness: find_token_number(state, &rider.tokens.toughness, rider),
        supertypes: rider.tokens.supertypes.clone(),
        core_types: rider.tokens.core_types.clone(),
        subtypes: rider.tokens.subtypes.clone(),
        colors: rider.tokens.colors.clone(),
        keywords: rider.tokens.keywords.clone(),
        tapped: rider.tokens.tapped,
    };
    let each: u32 = to_count(
        resolve_quantity_for_trigger_check(
            state,
            &rider.tokens.count,
            rider.controller,
            rider.source_id,
            None,
        ),
    );
    let times: u32 = find_repetitions(state, rider);
    assert(each * times <= 0xFFFF_FFFF * 0xFFFF_FFFF) by (nonlinear_arith)
        requires
            each <= 0xFFFF_FFFF,
            times <= 0xFFFF_FFFF,
    ;
    let number: u64 = each as u64 * times as u64;
    let ghost p = Play { game: state@, events: events@ };
    let mut i: u64 = 0;
    while i < number
        invariant
            i <= number,
            (Play { game: state@, events: events@ }) == tokens_created(
                p,
                kind,
                rider.controller,
                i as nat,
            ),
        decreases number - i,
    {
        create_token(state, &kind, rider.controller, events);
        i = i + 1;
    }
}

} // verus!
