//! What fades over the view: the confirmation of an action, and the plate that
//! lists the keys.

use vstd::prelude::*;

verus! {

/// How long a [`Flash`] stays at full opacity.
pub const FLASH_HOLD_NS: i64 = 350_000_000;

/// How long it then takes to fade.
pub const FLASH_FADE_NS: i64 = 350_000_000;

/// How long the help plate takes to fade once its key is let go.
pub const HELP_FADE_NS: i64 = 200_000_000;

/// What a [`Flash`] confirms.
#[derive(Clone, Copy, Debug, PartialEq, Eq, Structural)]
pub enum FlashKind {
    StillSaved,
    Deleted,
}

impl FlashKind {
    /// The glyph to show.
    pub fn icon(self) -> (s: &'static str)
        ensures
            s@ == match self {
                FlashKind::StillSaved => "📷"@,
                FlashKind::Deleted => "🗑"@,
            },
    {
        match self {
            FlashKind::StillSaved => "📷",
            FlashKind::Deleted => "🗑",
        }
    }
}

/// A brief confirmation of an action that would otherwise leave no mark on
/// screen.
pub struct Flash {
    pub kind: FlashKind,
    /// The file the action acted on.
    pub name: String,
    /// When it was raised, which the fade is measured from.
    pub started_ns: i64,
}

/// How opaque something is drawn: `num / den`.
#[derive(Clone, Copy, Debug, PartialEq, Eq, Structural)]
pub struct Opacity {
    pub num: i128,
    pub den: i64,
}

/// What is left of a fade of `fade` after `age`, if anything is.
pub open spec fn fading(age: int, fade: i64) -> Option<Opacity> {
    if fade - age <= 0 {
        None
    } else {
        Some(Opacity { num: (fade - age) as i128, den: fade })
    }
}

/// How opaque a flash is at `now`: solid at first, then fading; nothing once it
/// has faded out.
pub open spec fn flash_opacity(started: int, now: int) -> Option<Opacity> {
    let age = now - started;
    if age <= FLASH_HOLD_NS {
        Some(Opacity { num: FLASH_FADE_NS as i128, den: FLASH_FADE_NS })
    } else {
        fading(age - FLASH_HOLD_NS, FLASH_FADE_NS)
    }
}

fn fade(age: i128, fade_ns: i64) -> (o: Option<Opacity>)
    requires
        -0x1_0000_0000_0000_0000 <= age <= 0x1_0000_0000_0000_0000,
    ensures
        o == fading(age as int, fade_ns),
{
    let left: i128 = fade_ns as i128 - age;
    if left <= 0 {
        None
    } else {
        Some(Opacity { num: left, den: fade_ns })
    }
}

impl Flash {
    /// How opaque to draw the flash; nothing once it has faded out.
    pub fn opacity(&self, now_ns: i64) -> (o: Option<Opacity>)
        ensures
            o == flash_opacity(self.started_ns as int, now_ns as int),
    {
        let age: i128 = now_ns as i128 - self.started_ns as i128;
        if age <= FLASH_HOLD_NS as i128 {
            Some(Opacity { num: FLASH_FADE_NS as i128, den: FLASH_FADE_NS })
        } else {
            fade(age - FLASH_HOLD_NS as i128, FLASH_FADE_NS)
        }
    }
}

/// The help plate's state: solid for as long as its key is held, then fading
/// from the time it was let go.
#[derive(Clone, Copy, Debug, PartialEq, Eq, Structural)]
pub enum Help {
    Hidden,
    Held,
    Fading(i64),
}

/// The plate once its key is or is not `held` at `now`: the state to keep, and
/// how opaque to draw it.
pub open spec fn help_after(h: Help, held: bool, now: i64) -> (Help, Option<Opacity>) {
    let solid = Some(Opacity { num: HELP_FADE_NS as i128, den: HELP_FADE_NS });
    if held {
        (Help::Held, solid)
    } else {
        match h {
            Help::Hidden => (Help::Hidden, None),
            Help::Held => (Help::Fading(now), solid),
            Help::Fading(let_go) => match fading(now - let_go, HELP_FADE_NS) {
                None => (Help::Hidden, None),
                Some(o) => (h, Some(o)),
            },
        }
    }
}

impl Help {
    /// A plate that is not shown.
    pub fn new() -> (h: Help)
        ensures
            h == Help::Hidden,
    {
        Help::Hidden
    }

    /// What the key being `held` at `now` means for the plate. Taking it back
    /// in the middle of the fade is a plain return to solid.
    pub fn advance(self, held: bool, now_ns: i64) -> (r: (Help, Option<Opacity>))
        ensures
            r == help_after(self, held, now_ns),
    {
        let solid = Some(Opacity { num: HELP_FADE_NS as i128, den: HELP_FADE_NS });
        if held {
            return (Help::Held, solid);
        }
        match self {
            Help::Hidden => (Help::Hidden, None),
            Help::Held => (Help::Fading(now_ns), solid),
            Help::Fading(let_go) => match fade(now_ns as i128 - let_go as i128, HELP_FADE_NS) {
                None => (Help::Hidden, None),
                Some(o) => (self, Some(o)),
            },
        }
    }
}

/// A flash is gone once it has been held and has faded, and not before; it never
/// grows more opaque.
pub proof fn a_flash_fades_out_once(started: i64, now: i64, later: i64)
    requires
        now <= later,
    ensures
        flash_opacity(started as int, now as int) is None <==> now - started >= FLASH_HOLD_NS
            + FLASH_FADE_NS,
        flash_opacity(started as int, later as int) is Some ==> flash_opacity(
            started as int,
            now as int,
        ) is Some && flash_opacity(started as int, later as int)->0.num <= flash_opacity(
            started as int,
            now as int,
        )->0.num,
{
}

/// Whatever the plate was doing, holding its key shows it solid, and letting go
/// for as long as the fade takes hides it.
pub proof fn the_plate_follows_its_key(h: Help, now: i64, later: i64)
    requires
        later - now >= HELP_FADE_NS,
    ensures
        help_after(h, true, now).0 == Help::Held,
        help_after(h, true, now).1 == Some(
            Opacity { num: HELP_FADE_NS as i128, den: HELP_FADE_NS },
        ),
        help_after(help_after(Help::Held, false, now).0, false, later) == (
            Help::Hidden,
            None::<Opacity>,
        ),
{
}

/// A fade takes away opacity evenly: what is left and what has passed make up the
/// whole of it at every moment, until nothing is left.
pub proof fn a_fade_is_even(age: int, fade: i64)
    requires
        -0x1_0000_0000_0000_0000 <= age,
    ensures
        age < fade ==> fading(age, fade) is Some && fading(age, fade)->0.num + age == fade && fading(
            age,
            fade,
        )->0.den == fade,
        age >= fade ==> fading(age, fade) is None,
{
}

/// A flash is solid while it is held, and then fades evenly: what is left of it
/// and its age make up the hold and the fade.
pub proof fn a_flash_is_held_and_then_fades(started: i64, now: i64)
    ensures
        ({
            let age = now - started;
            let o = flash_opacity(started as int, now as int);
            &&& age <= 350_000_000 ==> o is Some && o->0.num == o->0.den && o->0.den > 0
            &&& 350_000_000 < age < 700_000_000 ==> o is Some && o->0.num + age == 700_000_000
                && o->0.den == 350_000_000
            &&& age >= 700_000_000 ==> o is None
        }),
{
}

/// The plate stays hidden until its key is held. When the key is let go it is
/// still solid, and fades evenly from then on; taking the key back shows it solid
/// again.
pub proof fn the_plate_fades_from_when_its_key_was_let_go(now: i64, later: i64)
    ensures
        help_after(Help::Hidden, false, now) == (Help::Hidden, None::<Opacity>),
        help_after(Help::Held, false, now).0 == Help::Fading(now),
        help_after(Help::Held, false, now).1 is Some,
        help_after(Help::Held, false, now).1->0.num == help_after(Help::Held, false, now).1->0.den,
        0 <= later - now < 200_000_000 ==> {
            let (h, o) = help_after(Help::Fading(now), false, later);
            &&& h == Help::Fading(now)
            &&& o is Some
            &&& o->0.num + (later - now) == 200_000_000
            &&& o->0.den == 200_000_000
        },
        later - now >= 200_000_000 ==> help_after(Help::Fading(now), false, later) == (
            Help::Hidden,
            None::<Opacity>,
        ),
{
}

} // verus!
