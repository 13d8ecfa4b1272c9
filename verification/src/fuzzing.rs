use vstd::prelude::*;
use vstd::string::*;

use crate::clock::{Instant, MILLISECOND};
use crate::lifecycle::{
    lifecycle_effects, DhtLifecycleAction, DhtLifecycleEffect, DhtLifecycleModel,
};

verus! {

/// The mathematical content of a lifecycle effect.
pub enum LifecycleEffectView {
    RunStartupBootstrap,
    ClearStartupBootstrapDue,
    SetStartupBootstrapDue(Instant),
    RunMaintenance,
    RecordRuntimeWarning { warning: Seq<char>, publish_status: bool },
    PublishStatus,
    ExpireRecentUniquePeers,
    SaveRuntimeState,
}

impl View for DhtLifecycleEffect {
    type V = LifecycleEffectView;

    open spec fn view(&self) -> LifecycleEffectView {
        match *self {
            DhtLifecycleEffect::RunStartupBootstrap => LifecycleEffectView::RunStartupBootstrap,
            DhtLifecycleEffect::ClearStartupBootstrapDue =>
                LifecycleEffectView::ClearStartupBootstrapDue,
            DhtLifecycleEffect::SetStartupBootstrapDue(due) =>
                LifecycleEffectView::SetStartupBootstrapDue(due),
            DhtLifecycleEffect::RunMaintenance => LifecycleEffectView::RunMaintenance,
            DhtLifecycleEffect::RecordRuntimeWarning { warning, publish_status } =>
                LifecycleEffectView::RecordRuntimeWarning { warning: warning@, publish_status },
            DhtLifecycleEffect::PublishStatus => LifecycleEffectView::PublishStatus,
            DhtLifecycleEffect::ExpireRecentUniquePeers =>
                LifecycleEffectView::ExpireRecentUniquePeers,
            DhtLifecycleEffect::SaveRuntimeState => LifecycleEffectView::SaveRuntimeState,
        }
    }
}

/// The content of a list of lifecycle effects.
pub open spec fn lifecycle_view(effects: Seq<DhtLifecycleEffect>) -> Seq<LifecycleEffectView> {
    effects.map_values(|effect: DhtLifecycleEffect| effect@)
}

/// A byte of the input; behind its end there are zeros.
pub open spec fn byte_at(bytes: Seq<u8>, offset: usize) -> u8 {
    if offset < bytes.len() {
        bytes[offset as int]
    } else {
        0
    }
}

/// The place of the `n`th next byte.
pub open spec fn ahead(offset: usize, n: nat) -> usize {
    if offset + n > usize::MAX {
        usize::MAX
    } else {
        (offset + n) as usize
    }
}

/// The number in four bytes of the input, the most significant one first.
pub open spec fn number_at(bytes: Seq<u8>, offset: usize) -> u32 {
    (0x100_0000 * byte_at(bytes, offset) + 0x1_0000 * byte_at(bytes, ahead(offset, 1)) + 0x100
        * byte_at(bytes, ahead(offset, 2)) + byte_at(bytes, ahead(offset, 3))) as u32
}

/// The lower-case letter with a number.
pub open spec fn letter(n: u8) -> char {
    ((97 + n) as u8) as char
}

/// The number of letters of a text in the input.
pub open spec fn text_len(bytes: Seq<u8>, offset: usize) -> nat {
    (byte_at(bytes, offset) % 32) as nat
}

/// The text in the input: a number of letters, then the letters.
pub open spec fn text_at(bytes: Seq<u8>, offset: usize) -> Seq<char> {
    Seq::new(
        text_len(bytes, offset),
        |i: int| letter(byte_at(bytes, ahead(offset, (i + 1) as nat)) % 26),
    )
}

/// A time that a number in the input stands for.
pub open spec fn time_of(base: Instant, value: u32) -> Instant {
    base.saturating_add(((value % 600_000) * MILLISECOND) as u64)
}

/// What the action that the input holds at a place leads to, and how many bytes it takes up.
pub open spec fn fuzz_step(bytes: Seq<u8>, offset: usize, base: Instant) -> (
    Seq<LifecycleEffectView>,
    nat,
) {
    let kind = byte_at(bytes, offset) % 8;
    let o = ahead(offset, 1);
    let text = text_at(bytes, o);
    if kind == 0 {
        let now = time_of(base, number_at(bytes, o));
        let due = time_of(base, number_at(bytes, ahead(offset, 5)));
        let busy = byte_at(bytes, ahead(offset, 9)) % 4 != 0;
        (
            if now >= due && !busy {
                seq![LifecycleEffectView::RunStartupBootstrap]
            } else {
                seq![]
            },
            10,
        )
    } else if kind == 1 {
        (seq![LifecycleEffectView::ClearStartupBootstrapDue], 1)
    } else if kind == 2 {
        (
            seq![
                LifecycleEffectView::RecordRuntimeWarning { warning: text, publish_status: false },
                LifecycleEffectView::SetStartupBootstrapDue(
                    time_of(base, number_at(bytes, ahead(offset, 2 + text.len()))),
                ),
            ],
            6 + text.len(),
        )
    } else if kind == 3 {
        let present = byte_at(bytes, o) % 2 != 0;
        let idle = present && byte_at(bytes, ahead(offset, 2)) % 4 == 0;
        (
            if idle {
                seq![LifecycleEffectView::RunMaintenance]
            } else {
                seq![]
            },
            if present {
                3
            } else {
                2
            },
        )
    } else if kind == 4 || kind == 6 {
        (
            seq![LifecycleEffectView::RecordRuntimeWarning { warning: text, publish_status: true }],
            2 + text.len(),
        )
    } else if kind == 5 {
        (
            seq![
                LifecycleEffectView::PublishStatus,
                LifecycleEffectView::ExpireRecentUniquePeers,
                LifecycleEffectView::SaveRuntimeState,
            ],
            1,
        )
    } else {
        (seq![LifecycleEffectView::SaveRuntimeState], 1)
    }
}

/// What the first `steps` actions in the input lead to, and where the next one begins.
pub open spec fn fuzz_run(bytes: Seq<u8>, base: Instant, steps: nat) -> (
    Seq<LifecycleEffectView>,
    usize,
)
    decreases steps,
{
    if steps == 0 {
        (seq![], ahead(0, 1))
    } else {
        let (effects, offset) = fuzz_run(bytes, base, (steps - 1) as nat);
        let (more, taken) = fuzz_step(bytes, offset, base);
        (effects + more, ahead(offset, taken))
    }
}

/// Reads values out of any sequence of bytes.
#[derive(Debug)]
pub struct FuzzBytes<'a> {
    bytes: &'a [u8],
    offset: usize,
}

impl<'a> FuzzBytes<'a> {
    /// The whole input.
    pub closed spec fn input(&self) -> Seq<u8> {
        self.bytes@
    }

    /// The place of the next byte.
    pub closed spec fn position(&self) -> usize {
        self.offset
    }

    pub fn new(bytes: &'a [u8]) -> (input: Self)
        ensures
            input.input() == bytes@,
            input.position() == 0,
    {
        FuzzBytes { bytes, offset: 0 }
    }

    pub fn next_u8(&mut self) -> (byte: u8)
        ensures
            byte == byte_at(old(self).input(), old(self).position()),
            final(self).input() == old(self).input(),
            final(self).position() == ahead(old(self).position(), 1),
    {
        let byte: u8 = if self.offset < self.bytes.len() {
            self.bytes[self.offset]
        } else {
            0
        };
        self.offset = self.offset.saturating_add(1);
        byte
    }

    pub fn next_u32(&mut self) -> (value: u32)
        ensures
            value == number_at(old(self).input(), old(self).position()),
            final(self).input() == old(self).input(),
            final(self).position() == ahead(old(self).position(), 4),
    {
        let first: u32 = self.next_u8() as u32;
        let second: u32 = self.next_u8() as u32;
        let third: u32 = self.next_u8() as u32;
        let fourth: u32 = self.next_u8() as u32;
        0x100_0000 * first + 0x1_0000 * second + 0x100 * third + fourth
    }

    pub fn next_ascii(&mut self) -> (text: String)
        ensures
            text@ == text_at(old(self).input(), old(self).position()),
            final(self).input() == old(self).input(),
            final(self).position() == ahead(
                old(self).position(),
                1 + text_len(old(self).input(), old(self).position()),
            ),
    {
        let ghost input = self.input();
        let ghost start = self.position();
        let len: u8 = self.next_u8() % 32;
        let mut text = String::new();
        let mut i: u8 = 0;
        while i < len
            invariant
                i <= len,
                len == text_len(input, start),
                self.input() == input,
                self.position() == ahead(start, (1 + i) as nat),
                text@ =~= text_at(input, start).take(i as int),
            decreases len - i,
        {
            let next: u8 = self.next_u8() % 26;
            text.append(letter_text(next));
            i = i + 1;
            assert(text@ =~= text_at(input, start).take(i as int));
        }
        assert(text@ =~= text_at(input, start));
        text
    }
}

/// The text of a lower-case letter.
fn letter_text(n: u8) -> (text: &'static str)
    requires
        n < 26,
    ensures
        text@ == seq![letter(n)],
{
    proof {
        reveal_strlit("a");
        reveal_strlit("b");
        reveal_strlit("c");
        reveal_strlit("d");
        reveal_strlit("e");
        reveal_strlit("f");
        reveal_strlit("g");
        reveal_strlit("h");
        reveal_strlit("i");
        reveal_strlit("j");
        reveal_strlit("k");
        reveal_strlit("l");
        reveal_strlit("m");
        reveal_strlit("n");
        reveal_strlit("o");
        reveal_strlit("p");
        reveal_strlit("q");
        reveal_strlit("r");
        reveal_strlit("s");
        reveal_strlit("t");
        reveal_strlit("u");
        reveal_strlit("v");
        reveal_strlit("w");
        reveal_strlit("x");
        reveal_strlit("y");
        reveal_strlit("z");
    }
    let text = if n == 0 {
        "a"
    } else if n == 1 {
        "b"
    } else if n == 2 {
        "c"
    } else if n == 3 {
        "d"
    } else if n == 4 {
        "e"
    } else if n == 5 {
        "f"
    } else if n == 6 {
        "g"
    } else if n == 7 {
        "h"
    } else if n == 8 {
        "i"
    } else if n == 9 {
        "j"
    } else if n == 10 {
        "k"
    } else if n == 11 {
        "l"
    } else if n == 12 {
        "m"
    } else if n == 13 {
        "n"
    } else if n == 14 {
        "o"
    } else if n == 15 {
        "p"
    } else if n == 16 {
        "q"
    } else if n == 17 {
        "r"
    } else if n == 18 {
        "s"
    } else if n == 19 {
        "t"
    } else if n == 20 {
        "u"
    } else if n == 21 {
        "v"
    } else if n == 22 {
        "w"
    } else if n == 23 {
        "x"
    } else if n == 24 {
        "y"
    } else {
        "z"
    };
    assert(text@ =~= seq![letter(n)]);
    text
}

/// A time that a number in the input stands for.
pub fn instant_from_ms(base: Instant, value: u32) -> (at: Instant)
    ensures
        at == time_of(base, value),
{
    base.saturating_add((value % 600_000) as u64 * MILLISECOND)
}

/// The action that the input holds next.
fn next_action(input: &mut FuzzBytes<'_>, base: Instant) -> (action: DhtLifecycleAction)
    ensures
        final(input).input() == old(input).input(),
        (lifecycle_view(lifecycle_effects(action)), final(input).position()) == ({
            let (effects, taken) = fuzz_step(old(input).input(), old(input).position(), base);
            (effects, ahead(old(input).position(), taken))
        }),
{
    let ghost expected = fuzz_step(input.input(), input.position(), base).0;
    let kind: u8 = input.next_u8() % 8;
    let action = if kind == 0 {
        let now: Instant = instant_from_ms(base, input.next_u32());
        let due: Instant = instant_from_ms(base, input.next_u32());
        let active_user_lookup_count: usize = (input.next_u8() % 4) as usize;
        DhtLifecycleAction::StartupBootstrapDue { now, due, active_user_lookup_count }
    } else if kind == 1 {
        DhtLifecycleAction::StartupBootstrapSucceeded
    } else if kind == 2 {
        let warning = input.next_ascii();
        let retry_at: Instant = instant_from_ms(base, input.next_u32());
        DhtLifecycleAction::StartupBootstrapFailed { warning, retry_at }
    } else if kind == 3 {
        let active_user_lookup_count: Option<usize> = if input.next_u8() % 2 == 0 {
            None
        } else {
            Some((input.next_u8() % 4) as usize)
        };
        DhtLifecycleAction::MaintenanceTick { active_user_lookup_count }
    } else if kind == 4 {
        DhtLifecycleAction::MaintenanceFailed { warning: input.next_ascii() }
    } else if kind == 5 {
        DhtLifecycleAction::HealthTick
    } else if kind == 6 {
        DhtLifecycleAction::RuntimeStepFailed { warning: input.next_ascii() }
    } else {
        DhtLifecycleAction::Shutdown
    };
    assert(lifecycle_view(lifecycle_effects(action)) =~= expected);
    action
}

/// Reduces the actions that any sequence of bytes stands for, and hands out all that they lead to.
pub fn reduce_lifecycle_for_fuzzing(bytes: &[u8], base: Instant) -> (effects: Vec<
    DhtLifecycleEffect,
>)
    ensures
        lifecycle_view(effects@) == fuzz_run(
            bytes@,
            base,
            (byte_at(bytes@, 0) % 64 + 1) as nat,
        ).0,
{
    let mut input = FuzzBytes::new(bytes);
    let steps: u8 = input.next_u8() % 64 + 1;
    let mut effects: Vec<DhtLifecycleEffect> = Vec::new();
    let mut taken: u8 = 0;
    assert(lifecycle_view(effects@) =~= seq![]);
    while taken < steps
        invariant
            taken <= steps,
            input.input() == bytes@,
            (lifecycle_view(effects@), input.position()) == fuzz_run(bytes@, base, taken as nat),
        decreases steps - taken,
    {
        let action = next_action(&mut input, base);
        let mut reduction = DhtLifecycleModel::update(action);
        let ghost before = effects@;
        let ghost more = reduction.effects@;
        effects.append(&mut reduction.effects);
        taken = taken + 1;
        assert(lifecycle_view(effects@) =~= lifecycle_view(before) + lifecycle_view(more));
    }
    effects
}

} // verus!
