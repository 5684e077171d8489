//! The keystrokes that type a text into the active window.
use vstd::prelude::*;
use vstd::std_specs::iter::IteratorSpec;

verus! {

broadcast use {
    vstd::string::axiom_spec_iter,
    vstd::string::next_postcondition,
    vstd::string::to_string_from_display_ensures_for_str,
};

/// Pause before typing, so the target window is ready.
pub const SETTLE_MS: u64 = 50;

/// One step of typing.
pub enum KeyAction {
    /// Pause for this many milliseconds.
    Pause(u64),
    /// Type a whole text at once.
    TypeText(String),
    /// Type one character.
    TypeChar(char),
    /// Press and release Enter.
    PressEnter,
}

/// A typing step as plain values.
pub enum KeyActionView {
    Pause(u64),
    TypeText(Seq<char>),
    TypeChar(char),
    PressEnter,
}

impl View for KeyAction {
    type V = KeyActionView;

    open spec fn view(&self) -> KeyActionView {
        match self {
            KeyAction::Pause(ms) => KeyActionView::Pause(*ms),
            KeyAction::TypeText(t) => KeyActionView::TypeText(t@),
            KeyAction::TypeChar(c) => KeyActionView::TypeChar(*c),
            KeyAction::PressEnter => KeyActionView::PressEnter,
        }
    }
}

/// Each character typed on its own, followed by the delay.
pub open spec fn per_char_steps(text: Seq<char>, delay_ms: u64) -> Seq<KeyActionView>
    decreases text.len(),
{
    if text.len() == 0 {
        Seq::empty()
    } else {
        per_char_steps(text.drop_last(), delay_ms) + seq![
            KeyActionView::TypeChar(text.last()),
            KeyActionView::Pause(delay_ms),
        ]
    }
}

proof fn lemma_plan_step(
    head: Seq<KeyActionView>,
    before: Seq<KeyActionView>,
    after: Seq<KeyActionView>,
    done: Seq<char>,
    c: char,
    delay_ms: u64,
)
    requires
        before == head + per_char_steps(done, delay_ms),
        after == before + seq![KeyActionView::TypeChar(c), KeyActionView::Pause(delay_ms)],
    ensures
        after == head + per_char_steps(done.push(c), delay_ms),
{
    lemma_per_char_push(done, c, delay_ms);
    assert(after =~= head + per_char_steps(done.push(c), delay_ms));
}

proof fn lemma_per_char_push(t: Seq<char>, c: char, delay_ms: u64)
    ensures
        per_char_steps(t.push(c), delay_ms) == per_char_steps(t, delay_ms) + seq![
            KeyActionView::TypeChar(c),
            KeyActionView::Pause(delay_ms),
        ],
{
    assert(t.push(c).drop_last() =~= t);
    assert(t.push(c).last() == c);
}

/// Appends the steps that type one character and then wait.
fn push_char_steps(plan: &mut Vec<KeyAction>, c: char, delay_ms: u64)
    ensures
        final(plan)@.map_values(|a: KeyAction| a@) == old(plan)@.map_values(|a: KeyAction| a@)
            + seq![KeyActionView::TypeChar(c), KeyActionView::Pause(delay_ms)],
{
    plan.push(KeyAction::TypeChar(c));
    plan.push(KeyAction::Pause(delay_ms));
    assert(plan@.map_values(|a: KeyAction| a@) =~= old(plan)@.map_values(|a: KeyAction| a@)
        + seq![KeyActionView::TypeChar(c), KeyActionView::Pause(delay_ms)]);
}

/// How a text is typed: after a short settling pause, character by character
/// with the delay after each when there is a delay, else all at once; then Enter
/// when asked for.
pub open spec fn spec_typing_plan(text: Seq<char>, delay_ms: u64, append_enter: bool) -> Seq<
    KeyActionView,
> {
    seq![KeyActionView::Pause(SETTLE_MS)] + (if delay_ms > 0 {
        per_char_steps(text, delay_ms)
    } else {
        seq![KeyActionView::TypeText(text)]
    }) + (if append_enter {
        seq![KeyActionView::PressEnter]
    } else {
        Seq::empty()
    })
}

/// The steps that type `text` into the active window, with `delay_ms` between
/// characters (0 = no delay) and Enter at the end when `append_enter` is set.
pub fn typing_plan(text: &str, delay_ms: u64, append_enter: bool) -> (plan: Vec<KeyAction>)
    ensures
        plan@.map_values(|a: KeyAction| a@) == spec_typing_plan(text@, delay_ms, append_enter),
{
    let mut plan: Vec<KeyAction> = Vec::new();
    plan.push(KeyAction::Pause(SETTLE_MS));
    let ghost head = seq![KeyActionView::Pause(SETTLE_MS)];
    if delay_ms > 0 {
        let mut chars = text.chars();
        let ghost all = text@;
        let ghost mut done: Seq<char> = Seq::empty();
        proof {
            assert(plan@.map_values(|a: KeyAction| a@) =~= head + per_char_steps(done, delay_ms));
        }
        loop
            invariant
                all == text@,
                chars.obeys_prophetic_iter_laws(),
                chars.decrease() is Some,
                done + chars.remaining() == all,
                plan@.map_values(|a: KeyAction| a@) == head + per_char_steps(done, delay_ms),
            ensures
                done == all,
                plan@.map_values(|a: KeyAction| a@) == head + per_char_steps(done, delay_ms),
            decreases chars.decrease()->0,
        {
            match chars.next() {
                Some(c) => {
                    let ghost before = plan@.map_values(|a: KeyAction| a@);
                    push_char_steps(&mut plan, c, delay_ms);
                    proof {
                        let ghost old_done = done;
                        done = done.push(c);
                        lemma_plan_step(head, before, plan@.map_values(|a: KeyAction| a@), old_done, c, delay_ms);
                        assert(done + chars.remaining() =~= all);
                    }
                },
                None => {
                    proof {
                        assert(done =~= all);
                    }
                    break;
                },
            }
        }
    } else {
        plan.push(KeyAction::TypeText(text.to_string()));
    }
    if append_enter {
        plan.push(KeyAction::PressEnter);
    }
    proof {
        assert(plan@.map_values(|a: KeyAction| a@) =~= spec_typing_plan(text@, delay_ms, append_enter));
    }
    plan
}

/// The per-character steps of `text` are two per character, the character then
/// the delay, in the order of the text, and never press Enter.
spec fn per_char_steps_shape(text: Seq<char>, delay_ms: u64) -> bool {
    &&& per_char_steps(text, delay_ms).len() == 2 * text.len()
    &&& forall|i: int|
        0 <= i < text.len() ==> per_char_steps(text, delay_ms)[2 * i] == KeyActionView::TypeChar(
            #[trigger] text[i],
        ) && per_char_steps(text, delay_ms)[2 * i + 1] == KeyActionView::Pause(delay_ms)
    &&& forall|i: int|
        0 <= i < per_char_steps(text, delay_ms).len() ==> !(#[trigger] per_char_steps(
            text,
            delay_ms,
        )[i] is PressEnter)
}

/// One more character keeps the shape of the per-character steps.
proof fn lemma_per_char_steps_shape_push(t: Seq<char>, c: char, text: Seq<char>, delay_ms: u64)
    requires
        text == t.push(c),
        per_char_steps_shape(t, delay_ms),
    ensures
        per_char_steps_shape(text, delay_ms),
{
    lemma_per_char_push(t, c, delay_ms);
    let prev = per_char_steps(t, delay_ms);
    let two = seq![KeyActionView::TypeChar(c), KeyActionView::Pause(delay_ms)];
    let steps = per_char_steps(text, delay_ms);
    assert(steps == prev + two);
    assert(text[t.len() as int] == c);
    assert forall|i: int| 0 <= i < text.len() implies steps[2 * i] == KeyActionView::TypeChar(
        #[trigger] text[i],
    ) && steps[2 * i + 1] == KeyActionView::Pause(delay_ms) by {
        if i < t.len() {
            assert(t[i] == text[i]);
            assert(steps[2 * i] == prev[2 * i]);
            assert(steps[2 * i + 1] == prev[2 * i + 1]);
        } else {
            assert(steps[2 * i] == two[0]);
            assert(steps[2 * i + 1] == two[1]);
        }
    }
    assert forall|i: int| 0 <= i < steps.len() implies !(#[trigger] steps[i] is PressEnter) by {
        if i < prev.len() {
            assert(steps[i] == prev[i]);
        } else {
            assert(steps[i] == two[i - prev.len()]);
        }
    }
}

/// The per-character steps of any text have that shape.
proof fn lemma_per_char_steps_shape(text: Seq<char>, delay_ms: u64)
    ensures
        per_char_steps_shape(text, delay_ms),
    decreases text.len(),
{
    if text.len() > 0 {
        let t = text.drop_last();
        lemma_per_char_steps_shape(t, delay_ms);
        assert(t.push(text.last()) =~= text);
        lemma_per_char_steps_shape_push(t, text.last(), text, delay_ms);
    } else {
        assert(per_char_steps(text, delay_ms) =~= Seq::<KeyActionView>::empty());
    }
}

/// What typing a text does, step by step: it starts with the settling pause;
/// with a delay, each character of the text is typed on its own, in order, each
/// followed by a pause of the delay; without one, the whole text is typed at
/// once; Enter is pressed last exactly when it is asked for, whatever the delay,
/// and never otherwise.
pub proof fn lemma_typing_plan_steps(text: Seq<char>, delay_ms: u64, append_enter: bool)
    ensures
        spec_typing_plan(text, delay_ms, append_enter)[0] == KeyActionView::Pause(SETTLE_MS),
        delay_ms > 0 ==> spec_typing_plan(text, delay_ms, append_enter).len() == 1 + 2 * text.len()
            + (if append_enter { 1int } else { 0int }),
        delay_ms > 0 ==> forall|i: int|
            0 <= i < text.len() ==> spec_typing_plan(text, delay_ms, append_enter)[1 + 2 * i]
                == KeyActionView::TypeChar(#[trigger] text[i]) && spec_typing_plan(
                text,
                delay_ms,
                append_enter,
            )[2 + 2 * i] == KeyActionView::Pause(delay_ms),
        delay_ms == 0 ==> spec_typing_plan(text, delay_ms, append_enter).len() == 2 + (if append_enter {
            1int
        } else {
            0int
        }),
        delay_ms == 0 ==> spec_typing_plan(text, delay_ms, append_enter)[1] == KeyActionView::TypeText(
            text,
        ),
        append_enter ==> spec_typing_plan(text, delay_ms, append_enter).last()
            == KeyActionView::PressEnter,
        forall|i: int|
            0 <= i < spec_typing_plan(text, delay_ms, append_enter).len() && #[trigger] spec_typing_plan(
                text,
                delay_ms,
                append_enter,
            )[i] == KeyActionView::PressEnter ==> append_enter && i == spec_typing_plan(
                text,
                delay_ms,
                append_enter,
            ).len() - 1,
{
    lemma_per_char_steps_shape(text, delay_ms);
    let plan = spec_typing_plan(text, delay_ms, append_enter);
    let body = if delay_ms > 0 {
        per_char_steps(text, delay_ms)
    } else {
        seq![KeyActionView::TypeText(text)]
    };
    let tail = if append_enter {
        seq![KeyActionView::PressEnter]
    } else {
        Seq::<KeyActionView>::empty()
    };
    assert(plan == seq![KeyActionView::Pause(SETTLE_MS)] + body + tail);
    assert forall|i: int| 0 <= i < body.len() implies !(#[trigger] body[i] is PressEnter) by {
        if delay_ms > 0 {
            assert(body[i] == per_char_steps(text, delay_ms)[i]);
        }
    }
    assert forall|i: int|
        0 <= i < plan.len() && #[trigger] plan[i] == KeyActionView::PressEnter implies append_enter
        && i == plan.len() - 1 by {
        if 1 <= i < 1 + body.len() {
            assert(plan[i] == body[i - 1]);
        }
    }
    if delay_ms > 0 {
        assert forall|i: int| 0 <= i < text.len() implies plan[1 + 2 * i] == KeyActionView::TypeChar(
            #[trigger] text[i],
        ) && plan[2 + 2 * i] == KeyActionView::Pause(delay_ms) by {
            assert(plan[1 + 2 * i] == body[2 * i]);
            assert(plan[2 + 2 * i] == body[2 * i + 1]);
        }
    }
}

} // verus!
