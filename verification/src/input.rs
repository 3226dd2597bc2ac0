//! The modal text input: a character buffer, the pending-edit context
//! it is typed into, and the parser that turns a submitted line into a
//! persistence command.
//!
//! An inventory line has the form `name@color`: everything after the
//! last `@` names a palette color; a line without `@` is all name.

use crate::entities::{
    EditInventory, EditInventoryView, EditTask, EditTaskView, NewInventory, NewInventoryView,
    NewTask, NewTaskView,
};
use crate::events::Key;
use crate::messages::{AppMsg, CmdView, EventView, ProcessMsg};
use vstd::prelude::*;

verus! {

/// What the active modal input is editing.
pub enum InputContext {
    NewInventory(NewInventory),
    NewTask(NewTask),
    EditTask(EditTask),
    EditInventory(EditInventory),
}

/// The position of the last `@` in the line, if any.
pub open spec fn last_index_of_at(s: Seq<char>) -> Option<int>
    decreases s.len(),
{
    if s.len() == 0 {
        None
    } else if s.last() == '@' {
        Some(s.len() - 1)
    } else {
        last_index_of_at(s.drop_last())
    }
}

/// The persisted color code a color word stands for; unknown words
/// fall back to the reset code.
pub open spec fn color_name_code(s: Seq<char>) -> int {
    if s == "black"@ {
        1
    } else if s == "red"@ {
        2
    } else if s == "green"@ {
        3
    } else if s == "yellow"@ {
        4
    } else if s == "blue"@ {
        5
    } else if s == "magenta"@ {
        6
    } else if s == "cyan"@ {
        7
    } else if s == "gray"@ {
        8
    } else if s == "darkgray"@ {
        9
    } else if s == "lightred"@ {
        10
    } else if s == "lightgreen"@ {
        11
    } else if s == "lightyellow"@ {
        12
    } else if s == "lightblue"@ {
        13
    } else if s == "lightmagenta"@ {
        14
    } else if s == "lightcyan"@ {
        15
    } else if s == "white"@ {
        16
    } else {
        0
    }
}

/// An inventory line split into its name and its color code: the part
/// before the last `@`, and the code of the word after it; a line
/// without `@` is all name, with the reset code.
pub open spec fn parse_inv_spec(s: Seq<char>) -> (Seq<char>, int) {
    match last_index_of_at(s) {
        None => (s, 0),
        Some(k) => (s.take(k), color_name_code(s.skip(k + 1))),
    }
}

/// The command a submitted line produces in each pending-edit context.
pub open spec fn submit_cmd(ctx: InputContext, input: Seq<char>) -> CmdView {
    match ctx {
        InputContext::NewInventory(_) => CmdView::CreateInventory(
            NewInventoryView { name: parse_inv_spec(input).0, color: parse_inv_spec(input).1 },
        ),
        InputContext::NewTask(base) => CmdView::CreateTask(
            NewTaskView { inventory_id: base@.inventory_id, name: input, notes: base@.notes },
        ),
        InputContext::EditInventory(inv) => CmdView::UpdateInventory(
            EditInventoryView {
                id: inv@.id,
                name: if parse_inv_spec(input).0.len() > 0 {
                    Some(parse_inv_spec(input).0)
                } else {
                    inv@.name
                },
                color: if parse_inv_spec(input).1 != 0 {
                    Some(parse_inv_spec(input).1)
                } else {
                    inv@.color
                },
            },
        ),
        InputContext::EditTask(t) => CmdView::UpdateTask(
            EditTaskView { id: t@.id, name: Some(input) },
        ),
    }
}

/// Relies on `String::push`: appends exactly one character.
#[verifier::external_body]
fn string_push(s: &mut String, c: char)
    ensures
        final(s)@ == old(s)@.push(c),
{
    s.push(c);
}

/// The characters `[from, to)` of the buffer, as a string.
fn chars_range_to_string(v: &Vec<char>, from: usize, to: usize) -> (r: String)
    requires
        from <= to <= v@.len(),
    ensures
        r@ == v@.subrange(from as int, to as int),
{
    let mut r = String::new();
    let mut i = from;
    while i < to
        invariant
            from <= i <= to <= v@.len(),
            r@ == v@.subrange(from as int, i as int),
        decreases to - i,
    {
        string_push(&mut r, v[i]);
        proof {
            assert(v@.subrange(from as int, i + 1) =~= v@.subrange(from as int, i as int).push(
                v@[i as int],
            ));
        }
        i += 1;
    }
    r
}

fn last_at_index(v: &Vec<char>) -> (r: Option<usize>)
    ensures
        match r {
            Some(k) => last_index_of_at(v@) == Some(k as int) && k < v@.len(),
            None => last_index_of_at(v@) is None,
        },
{
    let mut i = v.len();
    proof {
        assert(v@.take(v@.len() as int) =~= v@);
    }
    while i > 0
        invariant
            i <= v@.len(),
            last_index_of_at(v@) == last_index_of_at(v@.take(i as int)),
        decreases i,
    {
        if v[i - 1] == '@' {
            proof {
                assert(v@.take(i as int).last() == '@');
            }
            return Some(i - 1);
        }
        proof {
            assert(v@.take(i as int).last() != '@');
            assert(v@.take(i as int).drop_last() =~= v@.take(i - 1));
        }
        i -= 1;
    }
    proof {
        assert(v@.take(0).len() == 0);
    }
    None
}

fn color_code_of_name(name: &String) -> (c: i32)
    ensures
        c as int == color_name_code(name@),
{
    if *name == "black".to_owned() {
        1
    } else if *name == "red".to_owned() {
        2
    } else if *name == "green".to_owned() {
        3
    } else if *name == "yellow".to_owned() {
        4
    } else if *name == "blue".to_owned() {
        5
    } else if *name == "magenta".to_owned() {
        6
    } else if *name == "cyan".to_owned() {
        7
    } else if *name == "gray".to_owned() {
        8
    } else if *name == "darkgray".to_owned() {
        9
    } else if *name == "lightred".to_owned() {
        10
    } else if *name == "lightgreen".to_owned() {
        11
    } else if *name == "lightyellow".to_owned() {
        12
    } else if *name == "lightblue".to_owned() {
        13
    } else if *name == "lightmagenta".to_owned() {
        14
    } else if *name == "lightcyan".to_owned() {
        15
    } else if *name == "white".to_owned() {
        16
    } else {
        0
    }
}

/// Split an inventory line at its last `@`: the name, and the color
/// code of the word after it.
pub fn parse_inv_input(input: &Vec<char>) -> (r: (String, i32))
    ensures
        r.0@ == parse_inv_spec(input@).0,
        r.1 as int == parse_inv_spec(input@).1,
{
    match last_at_index(input) {
        Some(k) => {
            let n = input.len();
            let name = chars_range_to_string(input, 0, k);
            let color_word = chars_range_to_string(input, k + 1, n);
            proof {
                assert(input@.subrange(0, k as int) =~= input@.take(k as int));
                assert(input@.subrange(k + 1, input@.len() as int) =~= input@.skip(k + 1));
            }
            let code = color_code_of_name(&color_word);
            (name, code)
        },
        None => {
            let name = chars_range_to_string(input, 0, input.len());
            proof {
                assert(input@.subrange(0, input@.len() as int) =~= input@);
            }
            (name, 0)
        },
    }
}

/// The modal text input component.
pub struct InputModel {
    pub context: Option<InputContext>,
    pub input: Vec<char>,
}

/// What one key does to the modal input.  Enter on a non-empty line
/// with an active context clears both and yields the input-end event
/// together with the context's command; enter without a line, or with
/// no context, does nothing; escape drops the context and yields only
/// the input-end event; characters and backspace edit the buffer.
pub open spec fn input_on_key_rel(
    pre: InputModel,
    post: InputModel,
    key: Key,
    r: (Option<AppMsg>, Option<ProcessMsg>),
) -> bool {
    &&& (key == Key::Char('\n') && pre.input@.len() == 0 ==> {
        &&& post == pre
        &&& r.0 is None
        &&& r.1 is None
    })
    &&& (key == Key::Char('\n') && pre.input@.len() > 0 && pre.context is None ==> {
        &&& post == pre
        &&& r.0 is None
        &&& r.1 is None
    })
    &&& (key == Key::Char('\n') && pre.input@.len() > 0 && pre.context is Some ==> {
        &&& post.input@.len() == 0
        &&& post.context is None
        &&& r.0 matches Some(m) && m@ == EventView::InputEnd
        &&& r.1 matches Some(pm) && pm@ == submit_cmd(pre.context->Some_0, pre.input@)
    })
    &&& (key == Key::Esc ==> {
        &&& post.context is None
        &&& post.input == pre.input
        &&& r.0 matches Some(m) && m@ == EventView::InputEnd
        &&& r.1 is None
    })
    &&& ((key matches Key::Char(c) && c != '\n') ==> {
        &&& post.input@ == pre.input@.push(key->Char_0)
        &&& post.context == pre.context
        &&& r.0 is None
        &&& r.1 is None
    })
    &&& (key == Key::Backspace ==> {
        &&& post.input@ == if pre.input@.len() > 0 {
            pre.input@.drop_last()
        } else {
            pre.input@
        }
        &&& post.context == pre.context
        &&& r.0 is None
        &&& r.1 is None
    })
    &&& (!(key matches Key::Char(_)) && key != Key::Esc && key != Key::Backspace ==> {
        &&& post == pre
        &&& r.0 is None
        &&& r.1 is None
    })
}

impl InputModel {
    pub fn new() -> (r: InputModel)
        ensures
            r.context is None,
            r.input@.len() == 0,
    {
        InputModel { context: None, input: Vec::new() }
    }

    /// The typed line so far.
    pub fn content(&self) -> (r: String)
        ensures
            r@ == self.input@,
    {
        let mut r = String::new();
        let mut i: usize = 0;
        while i < self.input.len()
            invariant
                i <= self.input@.len(),
                r@ == self.input@.take(i as int),
            decreases self.input@.len() - i,
        {
            string_push(&mut r, self.input[i]);
            proof {
                assert(self.input@.take(i + 1) =~= self.input@.take(i as int).push(
                    self.input@[i as int],
                ));
            }
            i += 1;
        }
        proof {
            assert(self.input@.take(self.input@.len() as int) =~= self.input@);
        }
        r
    }

    /// The active pending-edit context.
    pub fn unwrap_cxt(&self) -> (r: &InputContext)
        requires
            self.context is Some,
        ensures
            *r == self.context->Some_0,
    {
        match &self.context {
            Some(c) => c,
            None => unreached(),
        }
    }

    pub fn is_active(&self) -> (r: bool)
        ensures
            r == (self.context is Some),
    {
        self.context.is_some()
    }

    pub fn set_context(&mut self, cxt: InputContext)
        ensures
            final(self).context == Some(cxt),
            final(self).input == old(self).input,
    {
        self.context = Some(cxt);
    }

    /// One key into the modal input.  Enter on a non-empty line ends
    /// the input and turns the line into the context's command; escape
    /// just ends the input; characters and backspace edit the buffer.
    pub fn on_key(&mut self, key: Key) -> (r: (Option<AppMsg>, Option<ProcessMsg>))
        ensures
            input_on_key_rel(*old(self), *final(self), key, r),
    {
        match key {
            Key::Char(c) if c == '\n' => {
                if self.input.len() == 0 {
                    return (None, None);
                }
                if self.context.is_none() {
                    return (None, None);
                }
                let ctx = self.context.take();
                let msg = match ctx {
                    Some(InputContext::NewInventory(mut base)) => {
                        let (name, color) = parse_inv_input(&self.input);
                        base.name = name;
                        base.color = color;
                        ProcessMsg::CreateInventory(base)
                    },
                    Some(InputContext::NewTask(mut base)) => {
                        base.name = self.content();
                        ProcessMsg::CreateTask(base)
                    },
                    Some(InputContext::EditInventory(mut inv)) => {
                        let (name, color) = parse_inv_input(&self.input);
                        if !name.as_str().is_empty() {
                            inv.name = Some(name);
                        }
                        if color != 0 {
                            inv.color = Some(color);
                        }
                        ProcessMsg::UpdateInventory(inv)
                    },
                    Some(InputContext::EditTask(mut task)) => {
                        task.name = Some(self.content());
                        ProcessMsg::UpdateTask(task)
                    },
                    None => unreached(),
                };
                self.input = Vec::new();
                (Some(AppMsg::InputEnd), Some(msg))
            },
            Key::Char(c) => {
                self.input.push(c);
                (None, None)
            },
            Key::Backspace => {
                if self.input.len() > 0 {
                    self.input.pop();
                }
                (None, None)
            },
            Key::Esc => {
                self.context = None;
                (Some(AppMsg::InputEnd), None)
            },
            _ => (None, None),
        }
    }
}

} // verus!
