//! The keyboard buffer: keys wait here between the interrupt that reads
//! them from the serial line and the process that asks for them.

use crossbeam_queue::ArrayQueue;
use vstd::prelude::*;

verus! {

/// A key, as the serial line delivers it.
pub type Key = u8;

/// How many keys the buffer holds.
pub const INPUT_CAPACITY: usize = 128;

#[verifier::external_type_specification]
#[verifier::external_body]
#[verifier::reject_recursive_types(T)]
pub struct ExArrayQueue<T>(ArrayQueue<T>);

/// The keys in a queue, oldest first.
pub uninterp spec fn queued(queue: ArrayQueue<Key>) -> Seq<Key>;

/// The number of keys that a queue was made to hold.
pub uninterp spec fn capacity_of(queue: ArrayQueue<Key>) -> nat;

/// Calls `ArrayQueue::new`, which makes an empty queue for `cap` elements
/// and panics when `cap` is zero.
#[verifier::external_body]
fn queue_new(cap: usize) -> (queue: ArrayQueue<Key>)
    requires
        0 < cap <= 0x1_0000,
    ensures
        queued(queue) == Seq::<Key>::empty(),
        capacity_of(queue) == cap,
{
    ArrayQueue::new(cap)
}

/// Calls `ArrayQueue::push`, which appends the element when the queue is
/// not full and hands it back as an error when it is.
#[verifier::external_body]
fn queue_push(queue: &mut ArrayQueue<Key>, key: Key) -> (result: Result<(), Key>)
    ensures
        capacity_of(*final(queue)) == capacity_of(*old(queue)),
        result is Ok <==> queued(*old(queue)).len() < capacity_of(*old(queue)),
        result is Ok ==> queued(*final(queue)) == queued(*old(queue)).push(key),
        result matches Err(returned) ==> returned == key,
        result is Err ==> queued(*final(queue)) == queued(*old(queue)),
{
    queue.push(key)
}

/// Calls `ArrayQueue::pop`, which removes and returns the oldest element,
/// and returns `None` when the queue is empty.
#[verifier::external_body]
fn queue_pop(queue: &mut ArrayQueue<Key>) -> (key: Option<Key>)
    ensures
        capacity_of(*final(queue)) == capacity_of(*old(queue)),
        key is Some <==> queued(*old(queue)).len() > 0,
        key is Some ==> key == Some(queued(*old(queue))[0]),
        key is Some ==> queued(*final(queue)) == queued(*old(queue)).drop_first(),
        key is None ==> queued(*final(queue)) == queued(*old(queue)),
{
    queue.pop()
}

/// The keyboard buffer.
pub struct InputBuffer {
    queue: ArrayQueue<Key>,
}

impl View for InputBuffer {
    type V = Seq<Key>;

    closed spec fn view(&self) -> Seq<Key> {
        queued(self.queue)
    }
}

impl InputBuffer {
    /// The buffer holds `INPUT_CAPACITY` keys.
    pub closed spec fn wf(&self) -> bool {
        capacity_of(self.queue) == INPUT_CAPACITY
    }

    /// An empty buffer.
    pub fn new() -> (buffer: InputBuffer)
        ensures
            buffer.wf(),
            buffer@ == Seq::<Key>::empty(),
    {
        InputBuffer { queue: queue_new(INPUT_CAPACITY) }
    }
}

/// Puts `key` behind the keys that wait. A key that arrives at a full
/// buffer is dropped.
pub fn push_key(buffer: &mut InputBuffer, key: Key)
    requires
        old(buffer).wf(),
    ensures
        final(buffer).wf(),
        final(buffer)@ == (if old(buffer)@.len() < INPUT_CAPACITY {
            old(buffer)@.push(key)
        } else {
            old(buffer)@
        }),
{
    let _ = queue_push(&mut buffer.queue, key);
}

/// Takes the key that has waited longest; `None` when none waits.
pub fn try_pop_key(buffer: &mut InputBuffer) -> (key: Option<Key>)
    requires
        old(buffer).wf(),
    ensures
        final(buffer).wf(),
        key == (if old(buffer)@.len() > 0 {
            Some(old(buffer)@[0])
        } else {
            None
        }),
        final(buffer)@ == (if old(buffer)@.len() > 0 {
            old(buffer)@.drop_first()
        } else {
            old(buffer)@
        }),
{
    queue_pop(&mut buffer.queue)
}

/// Takes the key that has waited longest, from a buffer in which a key
/// waits.
pub fn pop_key(buffer: &mut InputBuffer) -> (key: Key)
    requires
        old(buffer).wf(),
        old(buffer)@.len() > 0,
    ensures
        final(buffer).wf(),
        key == old(buffer)@[0],
        final(buffer)@ == old(buffer)@.drop_first(),
{
    match try_pop_key(buffer) {
        Some(key) => key,
        None => 0,
    }
}

/// What the console shows in answer to a key.
#[derive(Clone, Copy, Debug, PartialEq, Eq, Structural)]
pub enum Echo {
    /// A line break: the line is complete.
    Newline,
    /// The last character is wiped.
    Erase,
    /// The character is shown.
    Show(Key),
    /// Nothing is shown.
    Nothing,
}

/// True when `key` ends a line: a line feed or a carriage return.
pub open spec fn ends_line(key: Key) -> bool {
    key == 0x0A || key == 0x0D
}

/// True when `key` deletes: a backspace or a delete.
pub open spec fn deletes(key: Key) -> bool {
    key == 0x08 || key == 0x7F
}

/// The line after `key` was typed behind `line`.
pub open spec fn line_after(line: Seq<Key>, key: Key) -> Seq<Key> {
    if ends_line(key) {
        line
    } else if deletes(key) {
        if line.len() > 0 {
            line.drop_last()
        } else {
            line
        }
    } else {
        line.push(key)
    }
}

/// What the console shows after `key` was typed behind `line`.
pub open spec fn echo_of(line: Seq<Key>, key: Key) -> Echo {
    if ends_line(key) {
        Echo::Newline
    } else if deletes(key) {
        if line.len() > 0 {
            Echo::Erase
        } else {
            Echo::Nothing
        }
    } else {
        Echo::Show(key)
    }
}

/// Types `key` behind `line` and says what the console has to show. A line
/// feed or carriage return completes the line and leaves it as it is; a
/// backspace or delete removes the last character, if there is one; any
/// other key is appended.
pub fn edit_line(line: &mut Vec<Key>, key: Key) -> (echo: Echo)
    ensures
        final(line)@ == line_after(old(line)@, key),
        echo == echo_of(old(line)@, key),
{
    if key == 0x0A || key == 0x0D {
        Echo::Newline
    } else if key == 0x08 || key == 0x7F {
        if line.len() > 0 {
            line.pop();
            assert(line@ =~= old(line)@.drop_last());
            Echo::Erase
        } else {
            Echo::Nothing
        }
    } else {
        line.push(key);
        Echo::Show(key)
    }
}

/// The number of keys of `keys` that `get_line` consumes: up to and
/// including the first that ends a line, or all of them when none does.
pub open spec fn line_length(keys: Seq<Key>) -> nat
    decreases keys.len(),
{
    if keys.len() == 0 {
        0
    } else if ends_line(keys[0]) {
        1
    } else {
        1 + line_length(keys.drop_first())
    }
}

/// The line that typing the first `n` keys of `keys` gives.
pub open spec fn typed(keys: Seq<Key>, n: nat) -> Seq<Key>
    decreases n,
{
    if n == 0 {
        Seq::empty()
    } else {
        line_after(typed(keys, (n - 1) as nat), keys[n - 1])
    }
}

/// True when a key of `keys` ends a line.
pub open spec fn has_line(keys: Seq<Key>) -> bool {
    exists|i: int| 0 <= i < keys.len() && ends_line(keys[i])
}

/// Reads a line from the buffer: takes keys until one ends the line, and
/// returns the line together with what the console has to show, key by key.
/// When the buffer runs empty before the line is complete, the result is
/// `None`, the keys are gone and what they gave is lost.
pub fn get_line(buffer: &mut InputBuffer) -> (result: Option<(Vec<Key>, Vec<Echo>)>)
    requires
        old(buffer).wf(),
    ensures
        final(buffer).wf(),
        final(buffer)@ == old(buffer)@.skip(line_length(old(buffer)@) as int),
        result is Some <==> has_line(old(buffer)@),
        result matches Some((line, echoes)) ==> {
            &&& line@ == typed(old(buffer)@, line_length(old(buffer)@))
            &&& echoes@.len() == line_length(old(buffer)@)
            &&& forall|i: int|
                0 <= i < echoes@.len() ==> #[trigger] echoes@[i] == echo_of(
                    typed(old(buffer)@, i as nat),
                    old(buffer)@[i],
                )
        },
{
    let ghost keys = buffer@;
    let mut line: Vec<Key> = Vec::new();
    let mut echoes: Vec<Echo> = Vec::new();
    let ghost mut n: nat = 0;
    proof {
        assert(keys.skip(0) =~= keys);
    }
    loop
        invariant
            buffer.wf(),
            keys == old(buffer)@,
            n <= keys.len(),
            buffer@ == keys.skip(n as int),
            line@ == typed(keys, n as nat),
            echoes@.len() == n,
            forall|i: int| 0 <= i < n ==> #[trigger] echoes@[i] == echo_of(typed(keys, i as nat), keys[i]),
            forall|i: int| 0 <= i < n ==> !ends_line(keys[i]),
            line_length(keys) == n + line_length(keys.skip(n as int)),
        decreases keys.len() - n,
    {
        let key: Key = match try_pop_key(buffer) {
            Some(key) => key,
            None => {
                proof {
                    assert(keys.skip(n as int).len() == 0);
                    assert(line_length(keys.skip(n as int)) == 0);
                    assert(!has_line(keys));
                }
                return None;
            },
        };
        proof {
            assert(key == keys[n as int]);
            assert(keys.skip(n as int).drop_first() =~= keys.skip((n + 1) as int));
        }
        let echo: Echo = edit_line(&mut line, key);
        echoes.push(echo);
        proof {
            n = n + 1;
        }
        if echo == Echo::Newline {
            proof {
                assert(ends_line(keys[n - 1]));
                assert(line_length(keys.skip((n - 1) as int)) == 1);
                assert(has_line(keys));
            }
            return Some((line, echoes));
        }
    }
}

} // verus!
