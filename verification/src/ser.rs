//! The value walker and text emitter. The engine receives push-style
//! data-model events for one root value — begin a composite, emit a
//! primitive, end a composite — keeps a stack of open composites, and
//! appends literal construction text to its buffer. Names pass through the
//! rename table on the way out; string-keyed maps are accumulated and
//! emitted as one static perfect-hash-backed literal when they close.
//!
//! Every event is total: when the event does not fit the current state
//! (for example a non-string map key, or closing a composite that is not
//! open) the engine returns the unsupported-shape error and leaves its
//! state exactly as it was.

use vstd::prelude::*;
use vstd::string::*;
use crate::error::UnevalError;
use crate::names::{NameMap, pairs_view, resolved};
use crate::maps::{build_map_text, has_dup_key, phf_map_text};
use crate::text::{
    bool_text, bytes_text, char_lit, dec_int, dec_nat, dec_val, lemma_decimal_roundtrip,
    lemma_signed_decimal_roundtrip, lemma_strip_suffix, push_bytes, push_char_lit, push_dec_i128,
    push_dec_u128, push_str_lit, sdec_val, sep_text, str_lit, strip_suffix,
};

verus! {

// ---------------------------------------------------------------------------
// Widths and their literal suffixes
// ---------------------------------------------------------------------------

/// The width of an integer category, fixing the literal suffix.
#[derive(Clone, Copy)]
pub enum IntWidth {
    W8,
    W16,
    W32,
    W64,
    W128,
}

/// The width of a float category, fixing the literal suffix.
#[derive(Clone, Copy)]
pub enum FloatWidth {
    F32,
    F64,
}

/// The suffix appended to an unsigned decimal literal.
pub open spec fn usuffix(w: IntWidth) -> Seq<char> {
    match w {
        IntWidth::W8 => "u8"@,
        IntWidth::W16 => "u16"@,
        IntWidth::W32 => "u32"@,
        IntWidth::W64 => "u64"@,
        IntWidth::W128 => "u128"@,
    }
}

/// The suffix appended to a signed decimal literal.
pub open spec fn isuffix(w: IntWidth) -> Seq<char> {
    match w {
        IntWidth::W8 => "i8"@,
        IntWidth::W16 => "i16"@,
        IntWidth::W32 => "i32"@,
        IntWidth::W64 => "i64"@,
        IntWidth::W128 => "i128"@,
    }
}

/// The suffix appended to a float literal.
pub open spec fn fsuffix(w: FloatWidth) -> Seq<char> {
    match w {
        FloatWidth::F32 => "f32"@,
        FloatWidth::F64 => "f64"@,
    }
}

/// The whole text of an unsigned integer literal.
pub open spec fn uint_text(n: nat, w: IntWidth) -> Seq<char> {
    dec_nat(n) + usuffix(w)
}

/// The whole text of a signed integer literal.
pub open spec fn sint_text(v: int, w: IntWidth) -> Seq<char> {
    dec_int(v) + isuffix(w)
}

/// An unsigned literal splits unambiguously into its decimal digits and
/// its width suffix, and the digits read back to the emitted value — so
/// the literal denotes the input for every width.
pub proof fn lemma_unsigned_literal_roundtrip(n: nat, w: IntWidth)
    ensures
        strip_suffix(uint_text(n, w), usuffix(w)) == Some(dec_nat(n)),
        dec_val(dec_nat(n)) == n,
{
    lemma_strip_suffix(dec_nat(n), usuffix(w));
    lemma_decimal_roundtrip(n);
}

/// A signed literal splits the same way, and its sign-prefixed digits read
/// back to the emitted value — for every width and either signedness.
pub proof fn lemma_signed_literal_roundtrip(v: int, w: IntWidth)
    ensures
        strip_suffix(sint_text(v, w), isuffix(w)) == Some(dec_int(v)),
        sdec_val(dec_int(v)) == v,
{
    lemma_strip_suffix(dec_int(v), isuffix(w));
    lemma_signed_decimal_roundtrip(v);
}

// ---------------------------------------------------------------------------
// Traversal frames
// ---------------------------------------------------------------------------

/// Where one open map stands: waiting for a key, reading the key string,
/// holding a read key, or collecting the value's text. While a value is
/// collected the frame also holds the suspended outer buffer.
pub enum MapPhase {
    AwaitKey,
    InKey(Option<String>),
    AwaitValue(String),
    InValue(String, String),
}

/// One open composite and how many of its parts were emitted so far.
pub enum Frame {
    Newtype,
    Sequence { count: usize },
    Tuple { count: usize },
    TupleUnit,
    TupleNamed { count: usize },
    StructNamed { count: usize },
    MapFrame { entries: Vec<(String, String)>, phase: MapPhase },
}

/// The mathematical view of a map phase.
pub ghost enum MapPhaseView {
    AwaitKey,
    InKey(Option<Seq<char>>),
    AwaitValue(Seq<char>),
    InValue(Seq<char>, Seq<char>),
}

/// The mathematical view of one frame.
pub ghost enum FrameView {
    Newtype,
    Sequence { count: nat },
    Tuple { count: nat },
    TupleUnit,
    TupleNamed { count: nat },
    StructNamed { count: nat },
    MapFrame { entries: Seq<(Seq<char>, Seq<char>)>, phase: MapPhaseView },
}

impl View for MapPhase {
    type V = MapPhaseView;

    open spec fn view(&self) -> MapPhaseView {
        match self {
            MapPhase::AwaitKey => MapPhaseView::AwaitKey,
            MapPhase::InKey(k) => MapPhaseView::InKey(
                match k {
                    Some(s) => Some(s@),
                    None => None,
                },
            ),
            MapPhase::AwaitValue(k) => MapPhaseView::AwaitValue(k@),
            MapPhase::InValue(k, saved) => MapPhaseView::InValue(k@, saved@),
        }
    }
}

impl View for Frame {
    type V = FrameView;

    open spec fn view(&self) -> FrameView {
        match self {
            Frame::Newtype => FrameView::Newtype,
            Frame::Sequence { count } => FrameView::Sequence { count: *count as nat },
            Frame::Tuple { count } => FrameView::Tuple { count: *count as nat },
            Frame::TupleUnit => FrameView::TupleUnit,
            Frame::TupleNamed { count } => FrameView::TupleNamed { count: *count as nat },
            Frame::StructNamed { count } => FrameView::StructNamed { count: *count as nat },
            Frame::MapFrame { entries, phase } => FrameView::MapFrame {
                entries: pairs_view(entries@),
                phase: phase@,
            },
        }
    }
}

// ---------------------------------------------------------------------------
// The engine
// ---------------------------------------------------------------------------

/// The value walker: a buffer, a stack of open composites, and the rename
/// table.
pub struct Uneval {
    out: String,
    frames: Vec<Frame>,
    table: NameMap,
}

/// Whether a primitive may be emitted with the given stack of open
/// composites: anywhere except directly inside an open map that is not
/// collecting a value.
pub open spec fn can_emit(st: Seq<FrameView>) -> bool {
    st.len() == 0 || match st.last() {
        FrameView::MapFrame { entries: _, phase } => phase is InValue,
        _ => true,
    }
}

/// Whether the engine is reading a map key and no key string arrived yet.
pub open spec fn awaiting_key_string(st: Seq<FrameView>) -> bool {
    st.len() > 0 && (st.last() matches FrameView::MapFrame {
        entries: _,
        phase: MapPhaseView::InKey(Option::None),
    })
}

impl Uneval {
    /// The text emitted so far into the current buffer.
    pub closed spec fn out_text(self) -> Seq<char> {
        self.out@
    }

    /// The stack of open composites, innermost last.
    pub closed spec fn stack(self) -> Seq<FrameView> {
        self.frames@.map_values(|f: Frame| f@)
    }

    /// The rename table's current contents.
    pub closed spec fn names(self) -> Map<Seq<char>, Seq<char>> {
        self.table@
    }
}

/// The stack and the rename table are the same in both states.
pub open spec fn same_shape(pre: Uneval, post: Uneval) -> bool {
    post.stack() == pre.stack() && post.names() == pre.names()
}

/// The event appended exactly `t` and touched nothing else.
pub open spec fn emitted(pre: Uneval, post: Uneval, t: Seq<char>) -> bool {
    same_shape(pre, post) && post.out_text() == pre.out_text() + t
}

/// The event appended exactly `t` and opened the composite `f`.
pub open spec fn opened(pre: Uneval, post: Uneval, t: Seq<char>, f: FrameView) -> bool {
    post.stack() == pre.stack().push(f) && post.names() == pre.names() && post.out_text()
        == pre.out_text() + t
}

/// The event was refused and the engine state is exactly as before.
pub open spec fn unchanged(pre: Uneval, post: Uneval) -> bool {
    same_shape(pre, post) && post.out_text() == pre.out_text()
}

/// A fresh unsupported-shape error.
fn unsupported_shape(msg: &str) -> (e: UnevalError)
    ensures
        e is Custom,
{
    UnevalError::Custom(String::from_str(msg))
}

impl Uneval {
    /// A fresh engine: empty buffer, no open composite, empty rename table.
    pub fn new() -> (r: Self)
        ensures
            r.out_text() == Seq::<char>::empty(),
            r.stack() == Seq::<FrameView>::empty(),
            r.names() == Map::<Seq<char>, Seq<char>>::empty(),
    {
        let r = Uneval { out: String::new(), frames: Vec::new(), table: NameMap::new() };
        proof {
            assert(r.stack() =~= Seq::<FrameView>::empty());
        }
        r
    }

    /// Inserts a rename; a later insertion for the same name overwrites the
    /// earlier one.
    pub fn add_mapping(&mut self, from: String, to: String)
        ensures
            final(self).names() == old(self).names().insert(from@, to@),
            final(self).out_text() == old(self).out_text(),
            final(self).stack() == old(self).stack(),
    {
        self.table.add_mapping(from, to);
    }

    /// Resolves a name against the rename table: the replacement, or the
    /// name unchanged.
    pub fn resolve(&self, name: &str) -> (r: String)
        ensures
            r@ == resolved(self.names(), name@),
    {
        self.table.resolve(name)
    }

    /// Hands the finished text out, once every composite is closed; the
    /// buffer of an incomplete walk is never exposed.
    pub fn finish(self) -> (r: Result<String, UnevalError>)
        ensures
            self.stack().len() == 0 ==> (r matches Ok(t) && t@ == self.out_text()),
            self.stack().len() > 0 ==> (r matches Err(e) && e is Custom),
    {
        if self.frames.len() == 0 {
            Ok(self.out)
        } else {
            Err(unsupported_shape("serialization is incomplete: a composite value is still open"))
        }
    }

    /// Whether a primitive may be emitted right now.
    fn emit_allowed(&self) -> (b: bool)
        ensures
            b == can_emit(self.stack()),
    {
        let n: usize = self.frames.len();
        if n == 0 {
            return true;
        }
        let b = match &self.frames[n - 1] {
            Frame::MapFrame { entries: _, phase } => match phase {
                MapPhase::InValue(_, _) => true,
                _ => false,
            },
            _ => true,
        };
        proof {
            assert(self.stack().last() == self.frames@[n - 1int]@);
        }
        b
    }

    /// Emits a boolean literal.
    pub fn serialize_bool(&mut self, v: bool) -> (r: Result<(), UnevalError>)
        ensures
            can_emit(old(self).stack()) ==> r is Ok && emitted(
                *old(self),
                *final(self),
                bool_text(v),
            ),
            !can_emit(old(self).stack()) ==> (r matches Err(e) && e is Custom) && unchanged(
                *old(self),
                *final(self),
            ),
    {
        if !self.emit_allowed() {
            return Err(unsupported_shape("a value cannot stand here: a map expects a key"));
        }
        if v {
            self.out.append("true");
        } else {
            self.out.append("false");
        }
        Ok(())
    }

    /// Emits a character literal.
    pub fn serialize_char(&mut self, v: char) -> (r: Result<(), UnevalError>)
        ensures
            can_emit(old(self).stack()) ==> r is Ok && emitted(*old(self), *final(self), char_lit(v)),
            !can_emit(old(self).stack()) ==> (r matches Err(e) && e is Custom) && unchanged(
                *old(self),
                *final(self),
            ),
    {
        if !self.emit_allowed() {
            return Err(unsupported_shape("a value cannot stand here: a map expects a key"));
        }
        push_char_lit(&mut self.out, v);
        Ok(())
    }

    /// Emits an unsigned integer literal with its width suffix.
    pub fn serialize_unsigned(&mut self, v: u128, w: IntWidth) -> (r: Result<(), UnevalError>)
        ensures
            can_emit(old(self).stack()) ==> r is Ok && emitted(
                *old(self),
                *final(self),
                uint_text(v as nat, w),
            ),
            !can_emit(old(self).stack()) ==> (r matches Err(e) && e is Custom) && unchanged(
                *old(self),
                *final(self),
            ),
    {
        if !self.emit_allowed() {
            return Err(unsupported_shape("a value cannot stand here: a map expects a key"));
        }
        push_dec_u128(&mut self.out, v);
        match w {
            IntWidth::W8 => self.out.append("u8"),
            IntWidth::W16 => self.out.append("u16"),
            IntWidth::W32 => self.out.append("u32"),
            IntWidth::W64 => self.out.append("u64"),
            IntWidth::W128 => self.out.append("u128"),
        }
        proof {
            assert(self.out@ =~= old(self).out@ + uint_text(v as nat, w));
        }
        Ok(())
    }

    /// Emits a signed integer literal with its width suffix.
    pub fn serialize_signed(&mut self, v: i128, w: IntWidth) -> (r: Result<(), UnevalError>)
        ensures
            can_emit(old(self).stack()) ==> r is Ok && emitted(
                *old(self),
                *final(self),
                sint_text(v as int, w),
            ),
            !can_emit(old(self).stack()) ==> (r matches Err(e) && e is Custom) && unchanged(
                *old(self),
                *final(self),
            ),
    {
        if !self.emit_allowed() {
            return Err(unsupported_shape("a value cannot stand here: a map expects a key"));
        }
        push_dec_i128(&mut self.out, v);
        match w {
            IntWidth::W8 => self.out.append("i8"),
            IntWidth::W16 => self.out.append("i16"),
            IntWidth::W32 => self.out.append("i32"),
            IntWidth::W64 => self.out.append("i64"),
            IntWidth::W128 => self.out.append("i128"),
        }
        proof {
            assert(self.out@ =~= old(self).out@ + sint_text(v as int, w));
        }
        Ok(())
    }

    /// Emits a float literal: the caller's decimal rendering of the numeric
    /// part, which the engine cannot produce itself, followed by the width
    /// suffix that makes the literal unambiguous for the compiler.
    pub fn serialize_float_digits(&mut self, digits: &str, w: FloatWidth) -> (r: Result<
        (),
        UnevalError,
    >)
        ensures
            can_emit(old(self).stack()) ==> r is Ok && emitted(
                *old(self),
                *final(self),
                digits@ + fsuffix(w),
            ),
            !can_emit(old(self).stack()) ==> (r matches Err(e) && e is Custom) && unchanged(
                *old(self),
                *final(self),
            ),
    {
        if !self.emit_allowed() {
            return Err(unsupported_shape("a value cannot stand here: a map expects a key"));
        }
        self.out.append(digits);
        match w {
            FloatWidth::F32 => self.out.append("f32"),
            FloatWidth::F64 => self.out.append("f64"),
        }
        proof {
            assert(self.out@ =~= old(self).out@ + (digits@ + fsuffix(w)));
        }
        Ok(())
    }
}

// ---------------------------------------------------------------------------
// Composite events
// ---------------------------------------------------------------------------

/// The emitted-so-far part count of a counted frame; zero for the others.
pub open spec fn frame_count(f: FrameView) -> nat {
    match f {
        FrameView::Sequence { count } => count,
        FrameView::Tuple { count } => count,
        FrameView::TupleNamed { count } => count,
        FrameView::StructNamed { count } => count,
        _ => 0,
    }
}

/// One more emitted part, capped at the machine limit exactly as the
/// executable counter is.
pub open spec fn bump(c: nat) -> nat {
    if c < usize::MAX as nat {
        (c + 1) as nat
    } else {
        c
    }
}

/// A counted frame after one more part was emitted.
pub open spec fn bumped_frame(f: FrameView) -> FrameView {
    match f {
        FrameView::Sequence { count } => FrameView::Sequence { count: bump(count) },
        FrameView::Tuple { count } => FrameView::Tuple { count: bump(count) },
        FrameView::TupleNamed { count } => FrameView::TupleNamed { count: bump(count) },
        FrameView::StructNamed { count } => FrameView::StructNamed { count: bump(count) },
        _ => f,
    }
}

/// The closing text of a tuple-like frame: nothing for a collapsed
/// zero-length tuple, a closing parenthesis otherwise.
pub open spec fn tuple_close_text(f: FrameView) -> Seq<char> {
    match f {
        FrameView::TupleUnit => Seq::<char>::empty(),
        _ => ")"@,
    }
}

pub open spec fn top_newtype(st: Seq<FrameView>) -> bool {
    st.len() > 0 && st.last() is Newtype
}

pub open spec fn top_sequence(st: Seq<FrameView>) -> bool {
    st.len() > 0 && st.last() is Sequence
}

pub open spec fn top_tuple_counted(st: Seq<FrameView>) -> bool {
    st.len() > 0 && (st.last() is Tuple || st.last() is TupleNamed)
}

pub open spec fn top_tuple(st: Seq<FrameView>) -> bool {
    st.len() > 0 && (st.last() is Tuple || st.last() is TupleNamed || st.last() is TupleUnit)
}

pub open spec fn top_struct(st: Seq<FrameView>) -> bool {
    st.len() > 0 && st.last() is StructNamed
}

pub open spec fn map_awaiting_key(st: Seq<FrameView>) -> bool {
    st.len() > 0 && (st.last() matches FrameView::MapFrame {
        entries: _,
        phase: MapPhaseView::AwaitKey,
    })
}

pub open spec fn map_key_ready(st: Seq<FrameView>) -> bool {
    st.len() > 0 && (st.last() matches FrameView::MapFrame {
        entries: _,
        phase: MapPhaseView::InKey(Option::Some(_)),
    })
}

pub open spec fn map_awaiting_value(st: Seq<FrameView>) -> bool {
    st.len() > 0 && (st.last() matches FrameView::MapFrame {
        entries: _,
        phase: MapPhaseView::AwaitValue(_),
    })
}

pub open spec fn map_in_value(st: Seq<FrameView>) -> bool {
    st.len() > 0 && (st.last() matches FrameView::MapFrame {
        entries: _,
        phase: MapPhaseView::InValue(_, _),
    })
}

impl Uneval {
    /// Emits a quoted, escaped string literal — or, while a map is reading
    /// its key, captures the string as that key instead of emitting it.
    pub fn serialize_str(&mut self, v: &str) -> (r: Result<(), UnevalError>)
        ensures
            can_emit(old(self).stack()) ==> r is Ok && emitted(
                *old(self),
                *final(self),
                str_lit(v@),
            ),
            awaiting_key_string(old(self).stack()) ==> r is Ok && (old(self).stack().last()
                matches FrameView::MapFrame {
                    entries,
                    phase: MapPhaseView::InKey(Option::None),
                } && final(self).stack() == old(self).stack().update(
                old(self).stack().len() - 1,
                FrameView::MapFrame { entries, phase: MapPhaseView::InKey(Option::Some(v@)) },
            ) && final(self).out_text() == old(self).out_text() && final(self).names() == old(self).names()),
            !can_emit(old(self).stack()) && !awaiting_key_string(old(self).stack()) ==> (r matches
                Err(e) && e is Custom) && unchanged(*old(self), *final(self)),
    {
        if self.emit_allowed() {
            push_str_lit(&mut self.out, v);
            return Ok(());
        }
        let ghost st0 = self.stack();
        let f = self.frames.pop().unwrap();
        match f {
            Frame::MapFrame { entries, phase } => match phase {
                MapPhase::InKey(opt) => match opt {
                    None => {
                        let key = String::from_str(v);
                        self.frames.push(
                            Frame::MapFrame { entries, phase: MapPhase::InKey(Some(key)) },
                        );
                        proof {
                            assert(self.stack()[st0.len() - 1] == self.frames@.last()@);
                            assert(self.stack() =~= st0.update(
                                st0.len() - 1,
                                self.frames@.last()@,
                            ));
                        }
                        Ok(())
                    },
                    Some(k) => {
                        self.frames.push(
                            Frame::MapFrame { entries, phase: MapPhase::InKey(Some(k)) },
                        );
                        proof {
                            assert(self.stack() =~= st0);
                        }
                        Err(unsupported_shape("the key of this map entry was already given"))
                    },
                },
                p2 => {
                    self.frames.push(Frame::MapFrame { entries, phase: p2 });
                    proof {
                        assert(self.stack() =~= st0);
                    }
                    Err(unsupported_shape("a value cannot stand here: a map expects a key"))
                },
            },
            f2 => {
                self.frames.push(f2);
                proof {
                    assert(self.stack() =~= st0);
                }
                Err(unsupported_shape("a value cannot stand here: a map expects a key"))
            },
        }
    }

    /// Emits a byte sequence as a borrowed slice of suffixed byte literals.
    pub fn serialize_bytes(&mut self, v: &[u8]) -> (r: Result<(), UnevalError>)
        ensures
            can_emit(old(self).stack()) ==> r is Ok && emitted(
                *old(self),
                *final(self),
                bytes_text(v@),
            ),
            !can_emit(old(self).stack()) ==> (r matches Err(e) && e is Custom) && unchanged(
                *old(self),
                *final(self),
            ),
    {
        if !self.emit_allowed() {
            return Err(unsupported_shape("a value cannot stand here: a map expects a key"));
        }
        push_bytes(&mut self.out, v);
        Ok(())
    }

    /// Emits the unit value.
    pub fn serialize_unit(&mut self) -> (r: Result<(), UnevalError>)
        ensures
            can_emit(old(self).stack()) ==> r is Ok && emitted(*old(self), *final(self), "()"@),
            !can_emit(old(self).stack()) ==> (r matches Err(e) && e is Custom) && unchanged(
                *old(self),
                *final(self),
            ),
    {
        if !self.emit_allowed() {
            return Err(unsupported_shape("a value cannot stand here: a map expects a key"));
        }
        self.out.append("()");
        Ok(())
    }

    /// Emits a unit-like value — a unit aggregate, a unit variant, or the
    /// absent case of an optional — as its (possibly mapped) bare name.
    pub fn serialize_unit_name(&mut self, name: &str) -> (r: Result<(), UnevalError>)
        ensures
            can_emit(old(self).stack()) ==> r is Ok && emitted(
                *old(self),
                *final(self),
                resolved(old(self).names(), name@),
            ),
            !can_emit(old(self).stack()) ==> (r matches Err(e) && e is Custom) && unchanged(
                *old(self),
                *final(self),
            ),
    {
        if !self.emit_allowed() {
            return Err(unsupported_shape("a value cannot stand here: a map expects a key"));
        }
        let rn = self.table.resolve(name);
        self.out.append(rn.as_str());
        Ok(())
    }

    /// Opens a newtype-like value — a newtype aggregate, a newtype variant,
    /// or the present case of an optional: the (possibly mapped) name and an
    /// opening parenthesis; the single inner value follows, then the close.
    pub fn begin_newtype(&mut self, name: &str) -> (r: Result<(), UnevalError>)
        ensures
            can_emit(old(self).stack()) ==> r is Ok && opened(
                *old(self),
                *final(self),
                resolved(old(self).names(), name@) + "("@,
                FrameView::Newtype,
            ),
            !can_emit(old(self).stack()) ==> (r matches Err(e) && e is Custom) && unchanged(
                *old(self),
                *final(self),
            ),
    {
        if !self.emit_allowed() {
            return Err(unsupported_shape("a value cannot stand here: a map expects a key"));
        }
        let ghost st0 = self.stack();
        let rn = self.table.resolve(name);
        self.out.append(rn.as_str());
        self.out.append("(");
        self.frames.push(Frame::Newtype);
        proof {
            assert(self.stack() =~= st0.push(FrameView::Newtype));
            assert(self.out@ =~= old(self).out@ + (resolved(old(self).names(), name@) + "("@));
        }
        Ok(())
    }

    /// Closes a newtype-like value.
    pub fn end_newtype(&mut self) -> (r: Result<(), UnevalError>)
        ensures
            top_newtype(old(self).stack()) ==> r is Ok && final(self).stack() == old(self).stack().drop_last() && final(self).out_text() == old(self).out_text() + ")"@ && final(self).names() == old(self).names(),
            !top_newtype(old(self).stack()) ==> (r matches Err(e) && e is Custom) && unchanged(
                *old(self),
                *final(self),
            ),
    {
        let ghost st0 = self.stack();
        if self.frames.len() == 0 {
            return Err(unsupported_shape("no open newtype value to close"));
        }
        let f = self.frames.pop().unwrap();
        match f {
            Frame::Newtype => {
                self.out.append(")");
                proof {
                    assert(self.stack() =~= st0.drop_last());
                }
                Ok(())
            },
            f2 => {
                self.frames.push(f2);
                proof {
                    assert(self.stack() =~= st0);
                }
                Err(unsupported_shape("no open newtype value to close"))
            },
        }
    }

    /// Opens a dynamically sized sequence: a borrowed-slice literal.
    pub fn begin_seq(&mut self) -> (r: Result<(), UnevalError>)
        ensures
            can_emit(old(self).stack()) ==> r is Ok && opened(
                *old(self),
                *final(self),
                "&["@,
                FrameView::Sequence { count: 0 },
            ),
            !can_emit(old(self).stack()) ==> (r matches Err(e) && e is Custom) && unchanged(
                *old(self),
                *final(self),
            ),
    {
        if !self.emit_allowed() {
            return Err(unsupported_shape("a value cannot stand here: a map expects a key"));
        }
        let ghost st0 = self.stack();
        self.out.append("&[");
        self.frames.push(Frame::Sequence { count: 0 });
        proof {
            assert(self.stack() =~= st0.push(FrameView::Sequence { count: 0 }));
        }
        Ok(())
    }

    /// Announces the next sequence element: the separator when one is due.
    pub fn seq_element(&mut self) -> (r: Result<(), UnevalError>)
        ensures
            top_sequence(old(self).stack()) ==> r is Ok && final(self).out_text() == old(self).out_text() + sep_text(frame_count(old(self).stack().last())) && final(self).stack()
                == old(self).stack().update(
                old(self).stack().len() - 1,
                bumped_frame(old(self).stack().last()),
            ) && final(self).names() == old(self).names(),
            !top_sequence(old(self).stack()) ==> (r matches Err(e) && e is Custom) && unchanged(
                *old(self),
                *final(self),
            ),
    {
        let ghost st0 = self.stack();
        if self.frames.len() == 0 {
            return Err(unsupported_shape("no open sequence"));
        }
        let f = self.frames.pop().unwrap();
        match f {
            Frame::Sequence { count } => {
                if count > 0 {
                    self.out.append(", ");
                }
                let c2: usize = if count < usize::MAX { count + 1 } else { count };
                self.frames.push(Frame::Sequence { count: c2 });
                proof {
                    assert(self.stack() =~= st0.update(st0.len() - 1, self.frames@.last()@));
                }
                Ok(())
            },
            f2 => {
                self.frames.push(f2);
                proof {
                    assert(self.stack() =~= st0);
                }
                Err(unsupported_shape("no open sequence"))
            },
        }
    }

    /// Closes a sequence.
    pub fn end_seq(&mut self) -> (r: Result<(), UnevalError>)
        ensures
            top_sequence(old(self).stack()) ==> r is Ok && final(self).stack() == old(self).stack().drop_last() && final(self).out_text() == old(self).out_text() + "]"@ && final(self).names() == old(self).names(),
            !top_sequence(old(self).stack()) ==> (r matches Err(e) && e is Custom) && unchanged(
                *old(self),
                *final(self),
            ),
    {
        let ghost st0 = self.stack();
        if self.frames.len() == 0 {
            return Err(unsupported_shape("no open sequence to close"));
        }
        let f = self.frames.pop().unwrap();
        match f {
            Frame::Sequence { count: _ } => {
                self.out.append("]");
                proof {
                    assert(self.stack() =~= st0.drop_last());
                }
                Ok(())
            },
            f2 => {
                self.frames.push(f2);
                proof {
                    assert(self.stack() =~= st0);
                }
                Err(unsupported_shape("no open sequence to close"))
            },
        }
    }

    /// Opens a fixed-length tuple. A zero-length tuple collapses to the
    /// unit literal at once; no element may follow.
    pub fn begin_tuple(&mut self, len: usize) -> (r: Result<(), UnevalError>)
        ensures
            can_emit(old(self).stack()) && len == 0 ==> r is Ok && opened(
                *old(self),
                *final(self),
                "()"@,
                FrameView::TupleUnit,
            ),
            can_emit(old(self).stack()) && len > 0 ==> r is Ok && opened(
                *old(self),
                *final(self),
                "("@,
                FrameView::Tuple { count: 0 },
            ),
            !can_emit(old(self).stack()) ==> (r matches Err(e) && e is Custom) && unchanged(
                *old(self),
                *final(self),
            ),
    {
        if !self.emit_allowed() {
            return Err(unsupported_shape("a value cannot stand here: a map expects a key"));
        }
        let ghost st0 = self.stack();
        if len == 0 {
            self.out.append("()");
            self.frames.push(Frame::TupleUnit);
            proof {
                assert(self.stack() =~= st0.push(FrameView::TupleUnit));
            }
        } else {
            self.out.append("(");
            self.frames.push(Frame::Tuple { count: 0 });
            proof {
                assert(self.stack() =~= st0.push(FrameView::Tuple { count: 0 }));
            }
        }
        Ok(())
    }

    /// Opens a named tuple-like aggregate or variant. With no fields it
    /// degrades to the unit rule: the bare (possibly mapped) name.
    pub fn begin_tuple_name(&mut self, name: &str, len: usize) -> (r: Result<(), UnevalError>)
        ensures
            can_emit(old(self).stack()) && len == 0 ==> r is Ok && opened(
                *old(self),
                *final(self),
                resolved(old(self).names(), name@),
                FrameView::TupleUnit,
            ),
            can_emit(old(self).stack()) && len > 0 ==> r is Ok && opened(
                *old(self),
                *final(self),
                resolved(old(self).names(), name@) + "("@,
                FrameView::TupleNamed { count: 0 },
            ),
            !can_emit(old(self).stack()) ==> (r matches Err(e) && e is Custom) && unchanged(
                *old(self),
                *final(self),
            ),
    {
        if !self.emit_allowed() {
            return Err(unsupported_shape("a value cannot stand here: a map expects a key"));
        }
        let ghost st0 = self.stack();
        let rn = self.table.resolve(name);
        self.out.append(rn.as_str());
        if len == 0 {
            self.frames.push(Frame::TupleUnit);
            proof {
                assert(self.stack() =~= st0.push(FrameView::TupleUnit));
            }
        } else {
            self.out.append("(");
            self.frames.push(Frame::TupleNamed { count: 0 });
            proof {
                assert(self.stack() =~= st0.push(FrameView::TupleNamed { count: 0 }));
                assert(self.out@ =~= old(self).out@ + (resolved(old(self).names(), name@)
                    + "("@));
            }
        }
        Ok(())
    }

    /// Announces the next tuple element: the separator when one is due.
    pub fn tuple_element(&mut self) -> (r: Result<(), UnevalError>)
        ensures
            top_tuple_counted(old(self).stack()) ==> r is Ok && final(self).out_text() == old(self).out_text() + sep_text(frame_count(old(self).stack().last())) && final(self).stack()
                == old(self).stack().update(
                old(self).stack().len() - 1,
                bumped_frame(old(self).stack().last()),
            ) && final(self).names() == old(self).names(),
            !top_tuple_counted(old(self).stack()) ==> (r matches Err(e) && e is Custom)
                && unchanged(*old(self), *final(self)),
    {
        let ghost st0 = self.stack();
        if self.frames.len() == 0 {
            return Err(unsupported_shape("no open tuple"));
        }
        let f = self.frames.pop().unwrap();
        match f {
            Frame::Tuple { count } => {
                if count > 0 {
                    self.out.append(", ");
                }
                let c2: usize = if count < usize::MAX { count + 1 } else { count };
                self.frames.push(Frame::Tuple { count: c2 });
                proof {
                    assert(self.stack() =~= st0.update(st0.len() - 1, self.frames@.last()@));
                }
                Ok(())
            },
            Frame::TupleNamed { count } => {
                if count > 0 {
                    self.out.append(", ");
                }
                let c2: usize = if count < usize::MAX { count + 1 } else { count };
                self.frames.push(Frame::TupleNamed { count: c2 });
                proof {
                    assert(self.stack() =~= st0.update(st0.len() - 1, self.frames@.last()@));
                }
                Ok(())
            },
            f2 => {
                self.frames.push(f2);
                proof {
                    assert(self.stack() =~= st0);
                }
                Err(unsupported_shape("no open tuple"))
            },
        }
    }

    /// Closes a tuple-like value: a parenthesis, or nothing after a
    /// zero-length tuple already collapsed to the unit literal.
    pub fn end_tuple(&mut self) -> (r: Result<(), UnevalError>)
        ensures
            top_tuple(old(self).stack()) ==> r is Ok && final(self).stack() == old(self).stack().drop_last() && final(self).out_text() == old(self).out_text()
                + tuple_close_text(old(self).stack().last()) && final(self).names() == old(self).names(),
            !top_tuple(old(self).stack()) ==> (r matches Err(e) && e is Custom) && unchanged(
                *old(self),
                *final(self),
            ),
    {
        let ghost st0 = self.stack();
        if self.frames.len() == 0 {
            return Err(unsupported_shape("no open tuple to close"));
        }
        let f = self.frames.pop().unwrap();
        match f {
            Frame::Tuple { count: _ } => {
                self.out.append(")");
                proof {
                    assert(self.stack() =~= st0.drop_last());
                }
                Ok(())
            },
            Frame::TupleNamed { count: _ } => {
                self.out.append(")");
                proof {
                    assert(self.stack() =~= st0.drop_last());
                }
                Ok(())
            },
            Frame::TupleUnit => {
                proof {
                    assert(self.stack() =~= st0.drop_last());
                    assert(old(self).out@ + tuple_close_text(st0.last()) =~= old(self).out@);
                }
                Ok(())
            },
            f2 => {
                self.frames.push(f2);
                proof {
                    assert(self.stack() =~= st0);
                }
                Err(unsupported_shape("no open tuple to close"))
            },
        }
    }

    /// Opens a named aggregate with named fields: the (possibly mapped)
    /// name and the opening brace.
    pub fn begin_struct(&mut self, name: &str) -> (r: Result<(), UnevalError>)
        ensures
            can_emit(old(self).stack()) ==> r is Ok && opened(
                *old(self),
                *final(self),
                resolved(old(self).names(), name@) + " { "@,
                FrameView::StructNamed { count: 0 },
            ),
            !can_emit(old(self).stack()) ==> (r matches Err(e) && e is Custom) && unchanged(
                *old(self),
                *final(self),
            ),
    {
        if !self.emit_allowed() {
            return Err(unsupported_shape("a value cannot stand here: a map expects a key"));
        }
        let ghost st0 = self.stack();
        let rn = self.table.resolve(name);
        self.out.append(rn.as_str());
        self.out.append(" { ");
        self.frames.push(Frame::StructNamed { count: 0 });
        proof {
            assert(self.stack() =~= st0.push(FrameView::StructNamed { count: 0 }));
            assert(self.out@ =~= old(self).out@ + (resolved(old(self).names(), name@) + " { "@));
        }
        Ok(())
    }

    /// Announces the next field of a named aggregate: the separator when
    /// one is due, the (possibly mapped) field name, and a colon.
    pub fn struct_field(&mut self, name: &str) -> (r: Result<(), UnevalError>)
        ensures
            top_struct(old(self).stack()) ==> r is Ok && final(self).out_text() == old(self).out_text() + sep_text(frame_count(old(self).stack().last())) + resolved(
                old(self).names(),
                name@,
            ) + ": "@ && final(self).stack() == old(self).stack().update(
                old(self).stack().len() - 1,
                bumped_frame(old(self).stack().last()),
            ) && final(self).names() == old(self).names(),
            !top_struct(old(self).stack()) ==> (r matches Err(e) && e is Custom) && unchanged(
                *old(self),
                *final(self),
            ),
    {
        let ghost st0 = self.stack();
        if self.frames.len() == 0 {
            return Err(unsupported_shape("no open named aggregate"));
        }
        let f = self.frames.pop().unwrap();
        match f {
            Frame::StructNamed { count } => {
                if count > 0 {
                    self.out.append(", ");
                }
                let rn = self.table.resolve(name);
                self.out.append(rn.as_str());
                self.out.append(": ");
                let c2: usize = if count < usize::MAX { count + 1 } else { count };
                self.frames.push(Frame::StructNamed { count: c2 });
                proof {
                    assert(self.stack() =~= st0.update(st0.len() - 1, self.frames@.last()@));
                    assert(self.out@ =~= old(self).out@ + sep_text(frame_count(st0.last()))
                        + resolved(old(self).names(), name@) + ": "@);
                }
                Ok(())
            },
            f2 => {
                self.frames.push(f2);
                proof {
                    assert(self.stack() =~= st0);
                }
                Err(unsupported_shape("no open named aggregate"))
            },
        }
    }

    /// Closes a named aggregate.
    pub fn end_struct(&mut self) -> (r: Result<(), UnevalError>)
        ensures
            top_struct(old(self).stack()) ==> r is Ok && final(self).stack() == old(self).stack().drop_last() && final(self).out_text() == old(self).out_text() + " }"@
                && final(self).names() == old(self).names(),
            !top_struct(old(self).stack()) ==> (r matches Err(e) && e is Custom) && unchanged(
                *old(self),
                *final(self),
            ),
    {
        let ghost st0 = self.stack();
        if self.frames.len() == 0 {
            return Err(unsupported_shape("no open named aggregate to close"));
        }
        let f = self.frames.pop().unwrap();
        match f {
            Frame::StructNamed { count: _ } => {
                self.out.append(" }");
                proof {
                    assert(self.stack() =~= st0.drop_last());
                }
                Ok(())
            },
            f2 => {
                self.frames.push(f2);
                proof {
                    assert(self.stack() =~= st0);
                }
                Err(unsupported_shape("no open named aggregate to close"))
            },
        }
    }

    /// Opens a string-keyed map. Nothing is emitted yet: the entries are
    /// accumulated until the map closes, because the perfect-hash structure
    /// needs the complete key set before any text can be produced.
    pub fn begin_map(&mut self) -> (r: Result<(), UnevalError>)
        ensures
            can_emit(old(self).stack()) ==> r is Ok && opened(
                *old(self),
                *final(self),
                Seq::<char>::empty(),
                FrameView::MapFrame {
                    entries: Seq::<(Seq<char>, Seq<char>)>::empty(),
                    phase: MapPhaseView::AwaitKey,
                },
            ),
            !can_emit(old(self).stack()) ==> (r matches Err(e) && e is Custom) && unchanged(
                *old(self),
                *final(self),
            ),
    {
        if !self.emit_allowed() {
            return Err(unsupported_shape("a value cannot stand here: a map expects a key"));
        }
        let ghost st0 = self.stack();
        let entries: Vec<(String, String)> = Vec::new();
        proof {
            assert(pairs_view(entries@) =~= Seq::<(Seq<char>, Seq<char>)>::empty());
        }
        self.frames.push(Frame::MapFrame { entries, phase: MapPhase::AwaitKey });
        proof {
            assert(self.stack() =~= st0.push(self.frames@.last()@));
            assert(old(self).out@ + Seq::<char>::empty() =~= old(self).out@);
        }
        Ok(())
    }

    /// Starts reading the next map key. Only a plain string may follow:
    /// any other category is an unsupported map key shape.
    pub fn begin_map_key(&mut self) -> (r: Result<(), UnevalError>)
        ensures
            map_awaiting_key(old(self).stack()) ==> r is Ok && (old(self).stack().last()
                matches FrameView::MapFrame { entries, phase: MapPhaseView::AwaitKey } && final(self).stack() == old(self).stack().update(
                old(self).stack().len() - 1,
                FrameView::MapFrame { entries, phase: MapPhaseView::InKey(Option::None) },
            ) && final(self).out_text() == old(self).out_text() && final(self).names() == old(self).names()),
            !map_awaiting_key(old(self).stack()) ==> (r matches Err(e) && e is Custom)
                && unchanged(*old(self), *final(self)),
    {
        let ghost st0 = self.stack();
        if self.frames.len() == 0 {
            return Err(unsupported_shape("no open map expects a key"));
        }
        let f = self.frames.pop().unwrap();
        match f {
            Frame::MapFrame { entries, phase } => match phase {
                MapPhase::AwaitKey => {
                    self.frames.push(
                        Frame::MapFrame { entries, phase: MapPhase::InKey(None) },
                    );
                    proof {
                        assert(self.stack() =~= st0.update(st0.len() - 1, self.frames@.last()@));
                    }
                    Ok(())
                },
                p2 => {
                    self.frames.push(Frame::MapFrame { entries, phase: p2 });
                    proof {
                        assert(self.stack() =~= st0);
                    }
                    Err(unsupported_shape("no open map expects a key"))
                },
            },
            f2 => {
                self.frames.push(f2);
                proof {
                    assert(self.stack() =~= st0);
                }
                Err(unsupported_shape("no open map expects a key"))
            },
        }
    }

    /// Finishes reading a map key; a key string must have arrived.
    pub fn end_map_key(&mut self) -> (r: Result<(), UnevalError>)
        ensures
            map_key_ready(old(self).stack()) ==> r is Ok && (old(self).stack().last()
                matches FrameView::MapFrame {
                    entries,
                    phase: MapPhaseView::InKey(Option::Some(k)),
                } && final(self).stack() == old(self).stack().update(
                old(self).stack().len() - 1,
                FrameView::MapFrame { entries, phase: MapPhaseView::AwaitValue(k) },
            ) && final(self).out_text() == old(self).out_text() && final(self).names() == old(self).names()),
            !map_key_ready(old(self).stack()) ==> (r matches Err(e) && e is Custom) && unchanged(
                *old(self),
                *final(self),
            ),
    {
        let ghost st0 = self.stack();
        if self.frames.len() == 0 {
            return Err(unsupported_shape("no map key was read"));
        }
        let f = self.frames.pop().unwrap();
        match f {
            Frame::MapFrame { entries, phase } => match phase {
                MapPhase::InKey(opt) => match opt {
                    Some(k) => {
                        self.frames.push(
                            Frame::MapFrame { entries, phase: MapPhase::AwaitValue(k) },
                        );
                        proof {
                            assert(self.stack() =~= st0.update(
                                st0.len() - 1,
                                self.frames@.last()@,
                            ));
                        }
                        Ok(())
                    },
                    None => {
                        self.frames.push(
                            Frame::MapFrame { entries, phase: MapPhase::InKey(None) },
                        );
                        proof {
                            assert(self.stack() =~= st0);
                        }
                        Err(unsupported_shape("map keys must be strings"))
                    },
                },
                p2 => {
                    self.frames.push(Frame::MapFrame { entries, phase: p2 });
                    proof {
                        assert(self.stack() =~= st0);
                    }
                    Err(unsupported_shape("no map key was read"))
                },
            },
            f2 => {
                self.frames.push(f2);
                proof {
                    assert(self.stack() =~= st0);
                }
                Err(unsupported_shape("no map key was read"))
            },
        }
    }

    /// Starts collecting the text of the value for the key just read. The
    /// outer buffer is suspended inside the frame and emission continues
    /// into a fresh one, so the entry's text can be captured whole.
    pub fn begin_map_value(&mut self) -> (r: Result<(), UnevalError>)
        ensures
            map_awaiting_value(old(self).stack()) ==> r is Ok && (old(self).stack().last()
                matches FrameView::MapFrame { entries, phase: MapPhaseView::AwaitValue(k) }
                && final(self).stack() == old(self).stack().update(
                old(self).stack().len() - 1,
                FrameView::MapFrame {
                    entries,
                    phase: MapPhaseView::InValue(k, old(self).out_text()),
                },
            ) && final(self).out_text() == Seq::<char>::empty() && final(self).names() == old(self).names()),
            !map_awaiting_value(old(self).stack()) ==> (r matches Err(e) && e is Custom)
                && unchanged(*old(self), *final(self)),
    {
        let ghost st0 = self.stack();
        if self.frames.len() == 0 {
            return Err(unsupported_shape("no map entry expects a value"));
        }
        let f = self.frames.pop().unwrap();
        match f {
            Frame::MapFrame { entries, phase } => match phase {
                MapPhase::AwaitValue(k) => {
                    let mut saved = String::new();
                    core::mem::swap(&mut saved, &mut self.out);
                    self.frames.push(
                        Frame::MapFrame { entries, phase: MapPhase::InValue(k, saved) },
                    );
                    proof {
                        assert(self.stack() =~= st0.update(st0.len() - 1, self.frames@.last()@));
                    }
                    Ok(())
                },
                p2 => {
                    self.frames.push(Frame::MapFrame { entries, phase: p2 });
                    proof {
                        assert(self.stack() =~= st0);
                    }
                    Err(unsupported_shape("no map entry expects a value"))
                },
            },
            f2 => {
                self.frames.push(f2);
                proof {
                    assert(self.stack() =~= st0);
                }
                Err(unsupported_shape("no map entry expects a value"))
            },
        }
    }

    /// Finishes one map entry: the collected value text joins the entry
    /// list under its key and the suspended outer buffer resumes.
    pub fn end_map_value(&mut self) -> (r: Result<(), UnevalError>)
        ensures
            map_in_value(old(self).stack()) ==> r is Ok && (old(self).stack().last()
                matches FrameView::MapFrame { entries, phase: MapPhaseView::InValue(k, saved) }
                && final(self).stack() == old(self).stack().update(
                old(self).stack().len() - 1,
                FrameView::MapFrame {
                    entries: entries.push((k, old(self).out_text())),
                    phase: MapPhaseView::AwaitKey,
                },
            ) && final(self).out_text() == saved && final(self).names() == old(self).names()),
            !map_in_value(old(self).stack()) ==> (r matches Err(e) && e is Custom) && unchanged(
                *old(self),
                *final(self),
            ),
    {
        let ghost st0 = self.stack();
        if self.frames.len() == 0 {
            return Err(unsupported_shape("no map entry is being collected"));
        }
        let f = self.frames.pop().unwrap();
        match f {
            Frame::MapFrame { entries, phase } => match phase {
                MapPhase::InValue(k, saved) => {
                    let ghost epre = pairs_view(entries@);
                    let ghost kv = k@;
                    let ghost vv = self.out@;
                    let mut entries = entries;
                    let mut value_text = saved;
                    core::mem::swap(&mut value_text, &mut self.out);
                    entries.push((k, value_text));
                    proof {
                        assert(pairs_view(entries@) =~= epre.push((kv, vv)));
                    }
                    self.frames.push(
                        Frame::MapFrame { entries, phase: MapPhase::AwaitKey },
                    );
                    proof {
                        assert(self.stack() =~= st0.update(st0.len() - 1, self.frames@.last()@));
                    }
                    Ok(())
                },
                p2 => {
                    self.frames.push(Frame::MapFrame { entries, phase: p2 });
                    proof {
                        assert(self.stack() =~= st0);
                    }
                    Err(unsupported_shape("no map entry is being collected"))
                },
            },
            f2 => {
                self.frames.push(f2);
                proof {
                    assert(self.stack() =~= st0);
                }
                Err(unsupported_shape("no map entry is being collected"))
            },
        }
    }

    /// Closes a map: the complete entry list is handed to the perfect-hash
    /// builder and its literal replaces what would otherwise be per-entry
    /// insertions. Two entries with the same key are refused.
    pub fn end_map(&mut self) -> (r: Result<(), UnevalError>)
        ensures
            map_awaiting_key(old(self).stack()) ==> (old(self).stack().last()
                matches FrameView::MapFrame { entries, phase: MapPhaseView::AwaitKey } && (
            !has_dup_key(entries) ==> r is Ok && final(self).stack() == old(self).stack().drop_last() && final(self).out_text() == old(self).out_text()
                + phf_map_text(entries) && final(self).names() == old(self).names()) && (
            has_dup_key(entries) ==> (r matches Err(e) && e is Custom) && unchanged(
                *old(self),
                *final(self),
            ))),
            !map_awaiting_key(old(self).stack()) ==> (r matches Err(e) && e is Custom)
                && unchanged(*old(self), *final(self)),
    {
        let ghost st0 = self.stack();
        if self.frames.len() == 0 {
            return Err(unsupported_shape("no open map to close"));
        }
        let f = self.frames.pop().unwrap();
        match f {
            Frame::MapFrame { entries, phase } => match phase {
                MapPhase::AwaitKey => match build_map_text(&entries) {
                    Ok(t) => {
                        self.out.append(t.as_str());
                        proof {
                            assert(self.stack() =~= st0.drop_last());
                        }
                        Ok(())
                    },
                    Err(e) => {
                        self.frames.push(
                            Frame::MapFrame { entries, phase: MapPhase::AwaitKey },
                        );
                        proof {
                            assert(self.stack() =~= st0);
                        }
                        Err(e)
                    },
                },
                p2 => {
                    self.frames.push(Frame::MapFrame { entries, phase: p2 });
                    proof {
                        assert(self.stack() =~= st0);
                    }
                    Err(unsupported_shape("a map cannot close in the middle of an entry"))
                },
            },
            f2 => {
                self.frames.push(f2);
                proof {
                    assert(self.stack() =~= st0);
                }
                Err(unsupported_shape("no open map to close"))
            },
        }
    }
}

} // verus!
