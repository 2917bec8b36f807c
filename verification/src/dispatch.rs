//! Input dispatch: routes one key event to the handler of the current mode,
//! and names the view the renderer should draw.  `handle_key` is the whole
//! decision step of the interaction loop; the loop around it only reads
//! events and draws.

use vstd::prelude::*;
use crate::state::{AppState, FormAction, Key, spec_browse, spec_enter, spec_step};

verus! {

/// Relies on `String::push`: appends the given character to the end of the
/// string.
#[verifier::external_body]
fn push_char(s: &mut String, c: char)
    ensures
        final(s)@ == old(s)@.push(c),
{
    s.push(c);
}

/// Relies on `String::pop`: removes and returns the last character, or
/// returns `None` and leaves the string alone when it is empty.
#[verifier::external_body]
fn pop_char(s: &mut String) -> (r: Option<char>)
    ensures
        old(s)@.len() == 0 ==> r is None && final(s)@ == old(s)@,
        old(s)@.len() > 0 ==> r == Some(old(s)@.last()) && final(s)@ == old(s)@.drop_last(),
{
    s.pop()
}

/// Handles one key of the entry form: printable characters extend the draft,
/// Backspace and Delete shorten it, and Enter and Escape only report what the
/// caller should do with the form.
pub fn add_new_hander(key: Key, state: &mut AppState) -> (action: FormAction)
    ensures
        final(state).items == old(state).items,
        final(state).selection == old(state).selection,
        final(state).is_add_new == old(state).is_add_new,
        match key {
            Key::Enter => action == FormAction::Submit && final(state).input_value
                == old(state).input_value,
            Key::Esc => action == FormAction::Escape && final(state).input_value
                == old(state).input_value,
            Key::Backspace | Key::Delete => action == FormAction::Stay
                && final(state).input_value@ == (if old(state).input_value@.len() == 0 {
                old(state).input_value@
            } else {
                old(state).input_value@.drop_last()
            }),
            Key::Char(c) => action == FormAction::Stay
                && final(state).input_value@ == old(state).input_value@.push(c),
            _ => action == FormAction::Stay && final(state).input_value
                == old(state).input_value,
        },
{
    match key {
        Key::Enter => FormAction::Submit,
        Key::Esc => FormAction::Escape,
        Key::Backspace | Key::Delete => {
            if input_nonempty(state) {
                pop_char(&mut state.input_value);
            }
            FormAction::Stay
        },
        Key::Char(c) => {
            push_char(&mut state.input_value, c);
            FormAction::Stay
        },
        _ => FormAction::Stay,
    }
}

/// Whether the draft has at least one character.
fn input_nonempty(state: &AppState) -> (b: bool)
    ensures
        b == (state.input_value@.len() > 0),
{
    state.input_value.as_str().unicode_len() > 0
}

/// Handles one key in browsing mode; the result says whether the key asked
/// to quit.
pub fn key_handler(key: Key, state: &mut AppState) -> (quit: bool)
    ensures
        ({
            let (v2, q) = spec_browse(old(state)@, key);
            final(state)@ == v2 && quit == q
        }),
{
    match key {
        Key::Esc => true,
        Key::Up => {
            state.move_selection_up();
            false
        },
        Key::Down => {
            state.move_selection_down();
            false
        },
        Key::Enter => {
            state.toggle_done();
            false
        },
        Key::Char(c) => {
            if c == 'q' {
                true
            } else if c == 'A' {
                state.start_add();
                false
            } else if c == 'D' {
                state.delete_selected();
                false
            } else {
                false
            }
        },
        _ => false,
    }
}

/// Handles one key in whichever mode the state is in: the decision step of
/// the interaction loop.  The result says whether the key asked to quit,
/// which only browsing mode can.
pub fn handle_key(state: &mut AppState, key: Key) -> (quit: bool)
    ensures
        ({
            let (v2, q) = spec_step(old(state)@, key);
            final(state)@ == v2 && quit == q
        }),
{
    if state.is_add_new {
        let ghost draft = state.input_value@;
        let action = add_new_hander(key, state);
        match action {
            FormAction::Submit => {
                state.submit_entry();
            },
            FormAction::Escape => {
                state.cancel_entry();
            },
            FormAction::Stay => {
                proof {
                    assert(state@ =~= spec_enter(old(state)@, draft, key));
                }
            },
        }
        false
    } else {
        key_handler(key, state)
    }
}

/// Which view the renderer should draw for the current mode.
#[derive(Debug, Clone, Copy, PartialEq, Eq)]
pub enum Screen {
    TaskList,
    InputForm,
}

/// Selects the view for the current mode: the input form while entering an
/// item, the task list otherwise.
pub fn screen_for(state: &AppState) -> (s: Screen)
    ensures
        (s == Screen::InputForm) <==> (state@.mode is Entering),
        (s == Screen::TaskList) <==> (state@.mode is Browsing),
{
    if state.is_add_new {
        Screen::InputForm
    } else {
        Screen::TaskList
    }
}

} // verus!
