//! Type identities and the type-erased cell.

use vstd::prelude::*;
use vstd::layout::{align_of, size_of};

verus! {

/// A type that can be stored in a cell.
///
/// Each storable type chooses a numeric identity. Nothing keeps two types from
/// choosing the same number: a cell therefore also remembers the layout and the
/// concrete type of what it holds, and refuses every read that disagrees.
///
/// Contracts speak of a stored value through its plain form, a sequence of
/// integers: what is read has the plain form of what was stored. Where the
/// plain form of a type is faithful, what is read is what was stored.
pub trait Anonymous: Sized + 'static {
    /// The identity that `id` returns, as a value that contracts can speak of.
    /// An implementation states it; left out, it is some number that nothing
    /// is known of.
    open spec fn spec_id() -> u16 {
        arbitrary()
    }

    /// The value as plain data. An implementation states it; left out, it is
    /// some sequence that nothing is known of, and tells no values apart.
    open spec fn plain(&self) -> Seq<int> {
        arbitrary()
    }

    /// The numeric identity of this type. It is the same on every call.
    fn id() -> (r: u16)
        ensures
            r == Self::spec_id(),
    ;
}

/// The plain form of `T` is faithful: it tells any two values of `T` apart.
pub open spec fn faithful<T: Anonymous>() -> bool {
    forall|first: T, second: T|
        #![trigger first.plain(), second.plain()]
        first.plain() == second.plain() ==> first == second
}

/// The plain forms of `values`, in order.
pub open spec fn plains<T: Anonymous>(values: Seq<T>) -> Seq<Seq<int>> {
    Seq::new(values.len(), |k: int| values[k].plain())
}

/// Where the plain form of `T` is faithful, two sequences of values with the
/// same plain forms are the same sequence.
pub proof fn lemma_faithful_plains<T: Anonymous>(first: Seq<T>, second: Seq<T>)
    requires
        faithful::<T>(),
        plains(first) == plains(second),
    ensures
        first == second,
{
    assert(first.len() == plains(first).len());
    assert(second.len() == plains(second).len());
    assert forall|k: int| 0 <= k < first.len() implies first[k] == second[k] by {
        assert(plains(first)[k] == plains(second)[k]);
    }
    assert(first =~= second);
}

/// What the identity of "optional presence of T" adds to the identity of `T`.
pub const OPTION_OFFSET: u16 = 100;

/// `base + OPTION_OFFSET`, wrapping around at the upper end of `u16`.
pub open spec fn offset_id(base: u16) -> u16 {
    if base + OPTION_OFFSET <= u16::MAX {
        (base + OPTION_OFFSET) as u16
    } else {
        (base + OPTION_OFFSET - 0x1_0000) as u16
    }
}

impl Anonymous for i8 {
    open spec fn spec_id() -> u16 {
        0
    }

    open spec fn plain(&self) -> Seq<int> {
        seq![*self as int]
    }

    fn id() -> (r: u16) {
        0
    }
}

impl Anonymous for i16 {
    open spec fn spec_id() -> u16 {
        1
    }

    open spec fn plain(&self) -> Seq<int> {
        seq![*self as int]
    }

    fn id() -> (r: u16) {
        1
    }
}

impl Anonymous for i32 {
    open spec fn spec_id() -> u16 {
        2
    }

    open spec fn plain(&self) -> Seq<int> {
        seq![*self as int]
    }

    fn id() -> (r: u16) {
        2
    }
}

impl Anonymous for i64 {
    open spec fn spec_id() -> u16 {
        3
    }

    open spec fn plain(&self) -> Seq<int> {
        seq![*self as int]
    }

    fn id() -> (r: u16) {
        3
    }
}

impl Anonymous for i128 {
    open spec fn spec_id() -> u16 {
        4
    }

    open spec fn plain(&self) -> Seq<int> {
        seq![*self as int]
    }

    fn id() -> (r: u16) {
        4
    }
}

impl Anonymous for isize {
    open spec fn spec_id() -> u16 {
        5
    }

    open spec fn plain(&self) -> Seq<int> {
        seq![*self as int]
    }

    fn id() -> (r: u16) {
        5
    }
}

impl Anonymous for u8 {
    open spec fn spec_id() -> u16 {
        6
    }

    open spec fn plain(&self) -> Seq<int> {
        seq![*self as int]
    }

    fn id() -> (r: u16) {
        6
    }
}

impl Anonymous for u16 {
    open spec fn spec_id() -> u16 {
        7
    }

    open spec fn plain(&self) -> Seq<int> {
        seq![*self as int]
    }

    fn id() -> (r: u16) {
        7
    }
}

impl Anonymous for u32 {
    open spec fn spec_id() -> u16 {
        8
    }

    open spec fn plain(&self) -> Seq<int> {
        seq![*self as int]
    }

    fn id() -> (r: u16) {
        8
    }
}

impl Anonymous for u64 {
    open spec fn spec_id() -> u16 {
        9
    }

    open spec fn plain(&self) -> Seq<int> {
        seq![*self as int]
    }

    fn id() -> (r: u16) {
        9
    }
}

impl Anonymous for u128 {
    open spec fn spec_id() -> u16 {
        10
    }

    open spec fn plain(&self) -> Seq<int> {
        seq![*self as int]
    }

    fn id() -> (r: u16) {
        10
    }
}

impl Anonymous for usize {
    open spec fn spec_id() -> u16 {
        11
    }

    open spec fn plain(&self) -> Seq<int> {
        seq![*self as int]
    }

    fn id() -> (r: u16) {
        11
    }
}

impl Anonymous for char {
    open spec fn spec_id() -> u16 {
        14
    }

    open spec fn plain(&self) -> Seq<int> {
        seq![*self as int]
    }

    fn id() -> (r: u16) {
        14
    }
}

impl Anonymous for bool {
    open spec fn spec_id() -> u16 {
        15
    }

    open spec fn plain(&self) -> Seq<int> {
        seq![if *self { 1int } else { 0int }]
    }

    fn id() -> (r: u16) {
        15
    }
}

/// The identity of `Option<T>` is that of `T` plus `OPTION_OFFSET`. An identity
/// chosen at or above that offset can meet it, and one near the upper end of
/// `u16` wraps around; neither is caught here.
impl<T: Anonymous> Anonymous for Option<T> {
    open spec fn spec_id() -> u16 {
        offset_id(T::spec_id())
    }

    open spec fn plain(&self) -> Seq<int> {
        match self {
            Some(value) => seq![1int] + value.plain(),
            None => seq![0int],
        }
    }

    fn id() -> (r: u16) {
        T::id().wrapping_add(OPTION_OFFSET)
    }
}

/// The plain form of each integer type, of `char` and of `bool` is faithful.
pub proof fn lemma_built_in_faithful()
    ensures
        faithful::<i8>(),
        faithful::<i16>(),
        faithful::<i32>(),
        faithful::<i64>(),
        faithful::<i128>(),
        faithful::<isize>(),
        faithful::<u8>(),
        faithful::<u16>(),
        faithful::<u32>(),
        faithful::<u64>(),
        faithful::<u128>(),
        faithful::<usize>(),
        faithful::<char>(),
        faithful::<bool>(),
{
    assert forall|first: i8, second: i8|
        #![trigger first.plain(), second.plain()]
        first.plain() == second.plain() implies first == second by {
        assert(first.plain()[0] == first as int);
        assert(second.plain()[0] == second as int);
    }
    assert forall|first: i16, second: i16|
        #![trigger first.plain(), second.plain()]
        first.plain() == second.plain() implies first == second by {
        assert(first.plain()[0] == first as int);
        assert(second.plain()[0] == second as int);
    }
    assert forall|first: i32, second: i32|
        #![trigger first.plain(), second.plain()]
        first.plain() == second.plain() implies first == second by {
        assert(first.plain()[0] == first as int);
        assert(second.plain()[0] == second as int);
    }
    assert forall|first: i64, second: i64|
        #![trigger first.plain(), second.plain()]
        first.plain() == second.plain() implies first == second by {
        assert(first.plain()[0] == first as int);
        assert(second.plain()[0] == second as int);
    }
    assert forall|first: i128, second: i128|
        #![trigger first.plain(), second.plain()]
        first.plain() == second.plain() implies first == second by {
        assert(first.plain()[0] == first as int);
        assert(second.plain()[0] == second as int);
    }
    assert forall|first: isize, second: isize|
        #![trigger first.plain(), second.plain()]
        first.plain() == second.plain() implies first == second by {
        assert(first.plain()[0] == first as int);
        assert(second.plain()[0] == second as int);
    }
    assert forall|first: u8, second: u8|
        #![trigger first.plain(), second.plain()]
        first.plain() == second.plain() implies first == second by {
        assert(first.plain()[0] == first as int);
        assert(second.plain()[0] == second as int);
    }
    assert forall|first: u16, second: u16|
        #![trigger first.plain(), second.plain()]
        first.plain() == second.plain() implies first == second by {
        assert(first.plain()[0] == first as int);
        assert(second.plain()[0] == second as int);
    }
    assert forall|first: u32, second: u32|
        #![trigger first.plain(), second.plain()]
        first.plain() == second.plain() implies first == second by {
        assert(first.plain()[0] == first as int);
        assert(second.plain()[0] == second as int);
    }
    assert forall|first: u64, second: u64|
        #![trigger first.plain(), second.plain()]
        first.plain() == second.plain() implies first == second by {
        assert(first.plain()[0] == first as int);
        assert(second.plain()[0] == second as int);
    }
    assert forall|first: u128, second: u128|
        #![trigger first.plain(), second.plain()]
        first.plain() == second.plain() implies first == second by {
        assert(first.plain()[0] == first as int);
        assert(second.plain()[0] == second as int);
    }
    assert forall|first: usize, second: usize|
        #![trigger first.plain(), second.plain()]
        first.plain() == second.plain() implies first == second by {
        assert(first.plain()[0] == first as int);
        assert(second.plain()[0] == second as int);
    }
    assert forall|first: char, second: char|
        #![trigger first.plain(), second.plain()]
        first.plain() == second.plain() implies first == second by {
        assert(first.plain()[0] == first as int);
        assert(second.plain()[0] == second as int);
    }
    assert forall|first: bool, second: bool|
        #![trigger first.plain(), second.plain()]
        first.plain() == second.plain() implies first == second by {
        assert(first.plain()[0] == if first { 1int } else { 0int });
        assert(second.plain()[0] == if second { 1int } else { 0int });
    }
}

/// The plain form of `Option<T>` is faithful where that of `T` is.
pub proof fn lemma_option_faithful<T: Anonymous>()
    requires
        faithful::<T>(),
    ensures
        faithful::<Option<T>>(),
{
    assert forall|first: Option<T>, second: Option<T>|
        #![trigger first.plain(), second.plain()]
        first.plain() == second.plain() implies first == second by {
        match (first, second) {
            (Some(a), Some(b)) => {
                assert(first.plain().subrange(1, first.plain().len() as int) =~= a.plain());
                assert(second.plain().subrange(1, second.plain().len() as int) =~= b.plain());
            },
            (Some(a), None) => {
                assert(first.plain()[0] == 1 && second.plain()[0] == 0);
            },
            (None, Some(b)) => {
                assert(first.plain()[0] == 0 && second.plain()[0] == 1);
            },
            (None, None) => {},
        }
    }
}

/// Implemented by every type, so that a value of any type can be looked at as
/// a trait object of this one trait. Contracts use it for one thing only: to
/// say of which type the content of a cell is.
pub trait Erased {

}

impl<T> Erased for T {

}

/// `value` as a trait object. It stands for the type of `value`; nothing is
/// known, and nothing is claimed, of how it depends on the value.
pub open spec fn erased<T: 'static>(value: T) -> Box<dyn Erased> {
    Box::new(value)
}

/// One owned value of a type that the cell no longer knows statically.
///
/// It keeps a `Box<dyn Any>`, which remembers the concrete type of its content.
#[verifier::external_body]
#[derive(Debug)]
pub struct Payload {
    inner: Box<dyn core::any::Any>,
}

/// What a payload holds: the plain form of the value that is in it.
pub uninterp spec fn content(payload: Payload) -> Seq<int>;

/// Of which type the content of a payload is: a trait object of that type.
pub uninterp spec fn kind(payload: Payload) -> Box<dyn Erased>;

/// The content of `payload` is of type `T`.
pub open spec fn is_a<T: 'static>(payload: Payload) -> bool {
    exists|value: T| kind(payload) == erased(value)
}

/// `Box::new`, followed by the coercion to `Box<dyn Any>`: moves `value` to the
/// heap and forgets its static type. The payload that comes back holds
/// `value`: its content is of the type of `value` and has its plain form.
#[verifier::external_body]
fn erase<T: Anonymous>(value: T) -> (payload: Payload)
    ensures
        kind(payload) == erased(value),
        content(payload) == value.plain(),
{
    Payload { inner: Box::new(value) }
}

/// `<dyn Any>::downcast_ref`: a reference to the content if its concrete type
/// is `T`, and `None` if it is of another type. The reference leads to the
/// content itself, so what is behind it has the plain form of the content.
#[verifier::external_body]
fn downcast<T: Anonymous>(payload: &Payload) -> (r: Option<&T>)
    ensures
        r.is_some() == is_a::<T>(*payload),
        r.is_some() ==> r.unwrap().plain() == content(*payload),
{
    payload.inner.downcast_ref::<T>()
}

/// `<dyn Any>::downcast_mut`: a mutable reference to the content if its
/// concrete type is `T`, and `None` if it is of another type. What the caller
/// leaves behind the reference is the content from then on, still of type
/// `T`; a payload that hands out no reference stays as it was.
#[verifier::external_body]
fn downcast_mut<T: Anonymous>(payload: &mut Payload) -> (r: Option<&mut T>)
    ensures
        r.is_some() == is_a::<T>(*old(payload)),
        match r {
            Some(value) => {
                &&& value.plain() == content(*old(payload))
                &&& kind(*final(payload)) == erased(*final(value))
                &&& content(*final(payload)) == final(value).plain()
            },
            None => *final(payload) == *old(payload),
        },
{
    payload.inner.downcast_mut::<T>()
}

/// A single owned storage slot for one value of any storable type.
///
/// Beside the value it records the identity, the size and the alignment of the
/// type that it was made for. Every checked access is held against all three
/// before the content is looked at, and the content itself refuses to be read
/// as a type that it is not: a read as another type of the same identity and
/// layout yields nothing. That last refusal happens when the program runs; no
/// contract states it, because no contract can say that two types differ.
#[derive(Debug)]
pub struct AnonymousCell {
    id: u16,
    size: usize,
    align: usize,
    data: Payload,
}

impl AnonymousCell {
    /// The identity of the type that the cell was made for.
    pub closed spec fn identity(&self) -> u16 {
        self.id
    }

    /// The size in bytes of the type that the cell was made for.
    pub closed spec fn size(&self) -> nat {
        self.size as nat
    }

    /// The alignment in bytes of the type that the cell was made for.
    pub closed spec fn align(&self) -> nat {
        self.align as nat
    }

    /// The content is of type `T`.
    pub closed spec fn is_a<T: Anonymous>(&self) -> bool {
        is_a::<T>(self.data)
    }

    /// The plain form of the content.
    pub closed spec fn plain_content(&self) -> Seq<int> {
        content(self.data)
    }

    /// Identity, size and alignment are those of `T`.
    pub open spec fn accepts<T: Anonymous>(&self) -> bool {
        &&& self.identity() == T::spec_id()
        &&& self.size() == size_of::<T>()
        &&& self.align() == align_of::<T>()
    }

    /// What a read as `T` without the checks of identity and layout yields, in
    /// plain form: that of the content, where the content is of type `T`.
    pub open spec fn stored<T: Anonymous>(&self) -> Option<Seq<int>> {
        if self.is_a::<T>() {
            Some(self.plain_content())
        } else {
            None
        }
    }

    /// What a checked read as `T` yields, in plain form: that of the content,
    /// where the cell accepts `T` and the content is of type `T`.
    pub open spec fn value<T: Anonymous>(&self) -> Option<Seq<int>> {
        if self.accepts::<T>() {
            self.stored::<T>()
        } else {
            None
        }
    }

    /// The cell is one made for `value`: it accepts `T`, and its content is of
    /// type `T` and has the plain form of `value`.
    pub open spec fn holds<T: Anonymous>(&self, value: T) -> bool {
        self.value::<T>() == Some(value.plain())
    }

    /// Two cells made for types of the same identity and layout.
    pub open spec fn same_kind(&self, other: &Self) -> bool {
        &&& self.identity() == other.identity()
        &&& self.size() == other.size()
        &&& self.align() == other.align()
    }

    /// Moves `data` into a new cell, tagged with the identity and layout of `T`.
    pub fn new<T: Anonymous>(data: T) -> (cell: Self)
        ensures
            cell.holds(data),
    {
        AnonymousCell {
            id: T::id(),
            size: core::mem::size_of::<T>(),
            align: core::mem::align_of::<T>(),
            data: erase(data),
        }
    }

    /// The identity recorded at construction.
    pub fn id(&self) -> (r: u16)
        ensures
            r == self.identity(),
    {
        self.id
    }

    /// Whether identity, size and alignment are those of `T`.
    pub fn matches<T: Anonymous>(&self) -> (r: bool)
        ensures
            r == self.accepts::<T>(),
    {
        self.id == T::id() && self.size == core::mem::size_of::<T>() && self.align
            == core::mem::align_of::<T>()
    }

    /// The content as a `T`, or `None` where the cell does not accept `T` or
    /// holds a value of another type.
    pub fn get_ref<T: Anonymous>(&self) -> (r: Option<&T>)
        ensures
            match r {
                Some(value) => self.holds(*value),
                None => self.value::<T>().is_none(),
            },
    {
        if !self.matches::<T>() {
            return None;
        }
        downcast::<T>(&self.data)
    }

    /// The content as a mutable `T`, or `None` where the cell does not accept
    /// `T` or holds a value of another type. What the caller leaves behind the
    /// reference is the content from then on; the cell keeps its identity and
    /// layout.
    pub fn get_mut<T: Anonymous>(&mut self) -> (r: Option<&mut T>)
        ensures
            match r {
                Some(value) => old(self).holds(*value) && final(self).holds(*final(value)),
                None => old(self).value::<T>().is_none() && *final(self) == *old(self),
            },
            final(self).same_kind(old(self)),
    {
        if !self.matches::<T>() {
            return None;
        }
        downcast_mut::<T>(&mut self.data)
    }

    /// The content as a `T` without the checks of identity and layout, or
    /// `None` where the cell holds a value of another type.
    pub fn get_ref_unchecked<T: Anonymous>(&self) -> (r: Option<&T>)
        ensures
            match r {
                Some(value) => self.stored::<T>() == Some(value.plain()),
                None => self.stored::<T>().is_none(),
            },
    {
        downcast::<T>(&self.data)
    }

    /// The content as a mutable `T` without the checks of identity and layout,
    /// or `None` where the cell holds a value of another type.
    pub fn get_mut_unchecked<T: Anonymous>(&mut self) -> (r: Option<&mut T>)
        ensures
            match r {
                Some(value) => {
                    &&& old(self).stored::<T>() == Some(value.plain())
                    &&& final(self).stored::<T>() == Some(final(value).plain())
                },
                None => old(self).stored::<T>().is_none() && *final(self) == *old(self),
            },
            final(self).same_kind(old(self)),
    {
        downcast_mut::<T>(&mut self.data)
    }

    /// Puts `new` in place of the content and returns what was there. Fails,
    /// and changes nothing, where the cell does not accept `T` or holds a
    /// value of another type.
    pub fn exchange_value<T: Anonymous + Copy>(&mut self, new: T) -> (r: Result<T, ()>)
        ensures
            match r {
                Ok(held) => old(self).holds(held) && final(self).holds(new),
                Err(_) => old(self).value::<T>().is_none() && *final(self) == *old(self),
            },
            final(self).same_kind(old(self)),
    {
        match self.get_mut::<T>() {
            Some(slot) => {
                let held = *slot;
                *slot = new;
                Ok(held)
            },
            None => Err(()),
        }
    }

    /// Puts `new` in place of the content, which is dropped. Fails, and changes
    /// nothing, where the cell does not accept `T` or holds a value of another
    /// type.
    pub fn insert_value<T: Anonymous>(&mut self, new: T) -> (r: Result<(), ()>)
        ensures
            match r {
                Ok(_) => old(self).value::<T>().is_some() && final(self).holds(new),
                Err(_) => old(self).value::<T>().is_none() && *final(self) == *old(self),
            },
            final(self).same_kind(old(self)),
    {
        match self.get_mut::<T>() {
            Some(slot) => {
                *slot = new;
                Ok(())
            },
            None => Err(()),
        }
    }
}

} // verus!
