use vstd::prelude::*;

verus! {

/// Hide the cursor: `ESC [ ? 2 5 l`.
pub open spec fn hide_cursor_seq() -> Seq<u8> {
    seq![0x1bu8, 0x5b, 0x3f, 0x32, 0x35, 0x6c]
}

/// Show the cursor: `ESC [ ? 2 5 h`.
pub open spec fn show_cursor_seq() -> Seq<u8> {
    seq![0x1bu8, 0x5b, 0x3f, 0x32, 0x35, 0x68]
}

/// What a raw-mode session can be asked to do.
pub enum GuardOp {
    HideCursor,
    ShowCursor,
    Restore,
}

/// The terminal attributes that a session over saved attributes `saved` and raw
/// attributes `raw` has put in force, after `restored` says whether it was restored.
pub open spec fn attrs_in_force<A>(saved: A, raw: A, restored: bool) -> A {
    if restored {
        saved
    } else {
        raw
    }
}

/// Whether the session is restored after the operations `ops`, starting from `restored`.
pub open spec fn restored_after(restored: bool, ops: Seq<GuardOp>) -> bool
    decreases ops.len(),
{
    if ops.len() == 0 {
        restored
    } else {
        restored_after(restored || ops[0] is Restore, ops.skip(1))
    }
}

/// A raw-mode session: the attributes captured before raw mode was entered, the raw
/// attributes applied in their place, and whether the captured ones were put back.
/// The session never leaves raw mode in force once it has been restored, and every
/// restore puts the captured attributes back and shows the cursor.
pub struct RawTerminal<A> {
    saved: A,
    raw: A,
    restored: bool,
}

impl<A> RawTerminal<A> {
    pub closed spec fn saved_attrs(&self) -> A {
        self.saved
    }

    pub closed spec fn raw_attrs(&self) -> A {
        self.raw
    }

    pub closed spec fn is_restored(&self) -> bool {
        self.restored
    }

    /// The attributes the terminal holds while the session lives.
    pub open spec fn in_force(&self) -> A {
        attrs_in_force(self.saved_attrs(), self.raw_attrs(), self.is_restored())
    }

    /// Starts a session once `raw` has been applied over the captured `saved`.
    pub fn new(saved: A, raw: A) -> (r: RawTerminal<A>)
        ensures
            r.saved_attrs() == saved,
            r.raw_attrs() == raw,
            !r.is_restored(),
            r.in_force() == raw,
    {
        RawTerminal { saved, raw, restored: false }
    }

    /// The captured attributes, to be applied when the session is restored.
    pub fn saved(&self) -> (r: &A)
        ensures
            *r == self.saved_attrs(),
    {
        &self.saved
    }

    /// Whether the captured attributes were put back.
    pub fn restored(&self) -> (r: bool)
        ensures
            r == self.is_restored(),
    {
        self.restored
    }

    /// The bytes that hide the cursor; this is the `HideCursor` operation, which leaves
    /// the attributes alone.
    pub fn hide_cursor(&self) -> (r: Vec<u8>)
        ensures
            r@ == hide_cursor_seq(),
    {
        let mut r = Vec::new();
        r.push(0x1b);
        r.push(0x5b);
        r.push(0x3f);
        r.push(0x32);
        r.push(0x35);
        r.push(0x6c);
        r
    }

    /// The bytes that show the cursor; this is the `ShowCursor` operation, which leaves
    /// the attributes alone.
    pub fn show_cursor(&self) -> (r: Vec<u8>)
        ensures
            r@ == show_cursor_seq(),
    {
        let mut r = Vec::new();
        r.push(0x1b);
        r.push(0x5b);
        r.push(0x3f);
        r.push(0x32);
        r.push(0x35);
        r.push(0x68);
        r
    }

    /// Ends raw mode; this is the `Restore` operation. Every call returns the bytes that
    /// show the cursor again, and the captured attributes are then to be applied, so a
    /// restore after a later `hide_cursor` shows the cursor once more; restoring twice
    /// changes nothing else.
    pub fn finish_raw(&mut self) -> (r: Vec<u8>)
        ensures
            r@ == show_cursor_seq(),
            final(self).saved_attrs() == old(self).saved_attrs(),
            final(self).raw_attrs() == old(self).raw_attrs(),
            final(self).is_restored() == restored_after(old(self).is_restored(), seq![GuardOp::Restore]),
            final(self).is_restored(),
            final(self).in_force() == old(self).saved_attrs(),
    {
        proof {
            lemma_ends_restored(self.restored, seq![GuardOp::Restore]);
        }
        self.restored = true;
        self.show_cursor()
    }
}

/// Whatever a session is asked to do, once the operations end in a restore (an explicit
/// one, or the one the session's end performs) the captured attributes are in force.
pub proof fn lemma_restore_brings_back<A>(session: RawTerminal<A>, ops: Seq<GuardOp>)
    requires
        ops.len() > 0,
        ops.last() is Restore,
    ensures
        restored_after(session.is_restored(), ops),
        attrs_in_force(
            session.saved_attrs(),
            session.raw_attrs(),
            restored_after(session.is_restored(), ops),
        ) == session.saved_attrs(),
{
    lemma_ends_restored(session.is_restored(), ops);
}

proof fn lemma_ends_restored(restored: bool, ops: Seq<GuardOp>)
    requires
        ops.len() > 0,
        ops.last() is Restore,
    ensures
        restored_after(restored, ops),
    decreases ops.len(),
{
    if ops.len() > 1 {
        assert(ops.skip(1).last() == ops.last());
        lemma_ends_restored(restored || ops[0] is Restore, ops.skip(1));
    } else {
        assert(ops[0] == ops.last());
        assert(ops.skip(1).len() == 0);
        assert(restored_after(true, ops.skip(1)));
        assert(restored || ops[0] is Restore);
    }
}

} // verus!
