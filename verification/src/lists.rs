//! The lists that a span holds, in inline storage of the `smallvec` crate. Each
//! list is stated as the sequence of its items.

use std::borrow::Cow;

use smallvec::SmallVec;
use vstd::prelude::*;

use crate::span::{clone_cow, AttributeValue, Event, Link};

verus! {

/// The attributes of a span: inline storage for sixteen, the usual most of an
/// HTTP span.
#[verifier::external_body]
#[derive(Debug, PartialEq)]
pub struct Attributes {
    inner: SmallVec<[(Cow<'static, str>, AttributeValue); 16]>,
}

/// The items that a list of span attributes holds.
pub uninterp spec fn attribute_items(list: Attributes) -> Seq<(Cow<'static, str>, AttributeValue)>;

impl View for Attributes {
    type V = Seq<(Cow<'static, str>, AttributeValue)>;

    open spec fn view(&self) -> Seq<(Cow<'static, str>, AttributeValue)> {
        attribute_items(*self)
    }
}

impl Attributes {
    /// Calls `SmallVec::new`: an empty list.
    #[verifier::external_body]
    pub(crate) fn new() -> (r: Attributes)
        ensures
            attribute_items(r) == Seq::<(Cow<'static, str>, AttributeValue)>::empty(),
    {
        Attributes { inner: SmallVec::new() }
    }

    /// Calls `SmallVec::as_slice`: the items, in order.
    #[verifier::external_body]
    pub(crate) fn as_slice(&self) -> (r: &[(Cow<'static, str>, AttributeValue)])
        ensures
            r@ == attribute_items(*self),
    {
        self.inner.as_slice()
    }

    /// Calls `SmallVec::as_mut_slice`: the items, to be changed in place. What
    /// the slice holds in the end, the list holds.
    #[verifier::external_body]
    pub(crate) fn as_mut_slice(&mut self) -> (r: &mut [(Cow<'static, str>, AttributeValue)])
        ensures
            r@ == attribute_items(*old(self)),
            attribute_items(*final(self)) == final(r)@,
    {
        self.inner.as_mut_slice()
    }

    /// Calls `SmallVec::push`: the item goes to the end.
    #[verifier::external_body]
    pub(crate) fn push(&mut self, item: (Cow<'static, str>, AttributeValue))
        ensures
            attribute_items(*final(self)) == attribute_items(*old(self)).push(item),
    {
        self.inner.push(item)
    }

    /// Calls `SmallVec::remove`: the item at `index` leaves, and the later ones
    /// move up.
    #[verifier::external_body]
    pub(crate) fn remove(&mut self, index: usize) -> (r: (Cow<'static, str>, AttributeValue))
        requires
            index < attribute_items(*old(self)).len(),
        ensures
            r == attribute_items(*old(self))[index as int],
            attribute_items(*final(self)) == attribute_items(*old(self)).remove(index as int),
    {
        self.inner.remove(index)
    }

    /// The items, in order.
    pub fn items(&self) -> (r: &[(Cow<'static, str>, AttributeValue)])
        ensures
            r@ == self@,
    {
        self.as_slice()
    }

}

/// The attributes of an event or of a link: inline storage for four.
#[verifier::external_body]
#[derive(Debug, PartialEq)]
pub struct FewAttributes {
    inner: SmallVec<[(Cow<'static, str>, AttributeValue); 4]>,
}

/// The items that a list of event or link attributes holds.
pub uninterp spec fn few_attribute_items(list: FewAttributes) -> Seq<
    (Cow<'static, str>, AttributeValue),
>;

impl View for FewAttributes {
    type V = Seq<(Cow<'static, str>, AttributeValue)>;

    open spec fn view(&self) -> Seq<(Cow<'static, str>, AttributeValue)> {
        few_attribute_items(*self)
    }
}

impl FewAttributes {
    /// Calls `SmallVec::new`: an empty list.
    #[verifier::external_body]
    pub(crate) fn new() -> (r: FewAttributes)
        ensures
            few_attribute_items(r) == Seq::<(Cow<'static, str>, AttributeValue)>::empty(),
    {
        FewAttributes { inner: SmallVec::new() }
    }

    /// Calls `SmallVec::as_slice`: the items, in order.
    #[verifier::external_body]
    pub(crate) fn as_slice(&self) -> (r: &[(Cow<'static, str>, AttributeValue)])
        ensures
            r@ == few_attribute_items(*self),
    {
        self.inner.as_slice()
    }

    /// Calls `SmallVec::push`: the item goes to the end.
    #[verifier::external_body]
    pub(crate) fn push(&mut self, item: (Cow<'static, str>, AttributeValue))
        ensures
            few_attribute_items(*final(self)) == few_attribute_items(*old(self)).push(item),
    {
        self.inner.push(item)
    }

    /// The items, in order.
    pub fn items(&self) -> (r: &[(Cow<'static, str>, AttributeValue)])
        ensures
            r@ == self@,
    {
        self.as_slice()
    }


    /// A list with the given items.
    pub fn from_items(items: Vec<(Cow<'static, str>, AttributeValue)>) -> (r: FewAttributes)
        ensures
            r@ == items@,
    {
        let mut list = FewAttributes::new();
        let mut i: usize = 0;
        while i < items.len()
            invariant
                i <= items@.len(),
                list@ == items@.take(i as int),
            decreases items.len() - i,
        {
            list.push((clone_cow(&items[i].0), items[i].1.clone()));
            assert(items@.take(i + 1) =~= items@.take(i as int).push(items@[i as int]));
            i += 1;
        }
        assert(items@.take(items@.len() as int) =~= items@);
        list
    }

}

/// The events of a span: inline storage for eight.
#[verifier::external_body]
#[derive(Debug, PartialEq)]
pub struct Events {
    inner: SmallVec<[Event; 8]>,
}

/// The items that a list of events holds.
pub uninterp spec fn event_items(list: Events) -> Seq<Event>;

impl View for Events {
    type V = Seq<Event>;

    open spec fn view(&self) -> Seq<Event> {
        event_items(*self)
    }
}

impl Events {
    /// Calls `SmallVec::new`: an empty list.
    #[verifier::external_body]
    pub(crate) fn new() -> (r: Events)
        ensures
            event_items(r) == Seq::<Event>::empty(),
    {
        Events { inner: SmallVec::new() }
    }

    /// Calls `SmallVec::as_slice`: the items, in order.
    #[verifier::external_body]
    pub(crate) fn as_slice(&self) -> (r: &[Event])
        ensures
            r@ == event_items(*self),
    {
        self.inner.as_slice()
    }

    /// Calls `SmallVec::push`: the item goes to the end.
    #[verifier::external_body]
    pub(crate) fn push(&mut self, item: Event)
        ensures
            event_items(*final(self)) == event_items(*old(self)).push(item),
    {
        self.inner.push(item)
    }

    /// The items, in order.
    pub fn items(&self) -> (r: &[Event])
        ensures
            r@ == self@,
    {
        self.as_slice()
    }

}

/// The links of a span: inline storage for four.
#[verifier::external_body]
#[derive(Debug, PartialEq)]
pub struct Links {
    inner: SmallVec<[Link; 4]>,
}

/// The items that a list of links holds.
pub uninterp spec fn link_items(list: Links) -> Seq<Link>;

impl View for Links {
    type V = Seq<Link>;

    open spec fn view(&self) -> Seq<Link> {
        link_items(*self)
    }
}

impl Links {
    /// Calls `SmallVec::new`: an empty list.
    #[verifier::external_body]
    pub(crate) fn new() -> (r: Links)
        ensures
            link_items(r) == Seq::<Link>::empty(),
    {
        Links { inner: SmallVec::new() }
    }

    /// Calls `SmallVec::as_slice`: the items, in order.
    #[verifier::external_body]
    pub(crate) fn as_slice(&self) -> (r: &[Link])
        ensures
            r@ == link_items(*self),
    {
        self.inner.as_slice()
    }

    /// Calls `SmallVec::push`: the item goes to the end.
    #[verifier::external_body]
    pub(crate) fn push(&mut self, item: Link)
        ensures
            link_items(*final(self)) == link_items(*old(self)).push(item),
    {
        self.inner.push(item)
    }

    /// The items, in order.
    pub fn items(&self) -> (r: &[Link])
        ensures
            r@ == self@,
    {
        self.as_slice()
    }

}

impl Clone for Attributes {
    fn clone(&self) -> (r: Attributes)
        ensures
            r@ == self@,
    {
        let items = self.as_slice();
        let mut list = Attributes::new();
        let mut i: usize = 0;
        while i < items.len()
            invariant
                i <= items@.len(),
                list@ == items@.take(i as int),
            decreases items.len() - i,
        {
            list.push((clone_cow(&items[i].0), items[i].1.clone()));
            assert(items@.take(i + 1) =~= items@.take(i as int).push(items@[i as int]));
            i += 1;
        }
        assert(items@.take(items@.len() as int) =~= items@);
        list
    }
}

impl Clone for FewAttributes {
    fn clone(&self) -> (r: FewAttributes)
        ensures
            r@ == self@,
    {
        let items = self.as_slice();
        let mut list = FewAttributes::new();
        let mut i: usize = 0;
        while i < items.len()
            invariant
                i <= items@.len(),
                list@ == items@.take(i as int),
            decreases items.len() - i,
        {
            list.push((clone_cow(&items[i].0), items[i].1.clone()));
            assert(items@.take(i + 1) =~= items@.take(i as int).push(items@[i as int]));
            i += 1;
        }
        assert(items@.take(items@.len() as int) =~= items@);
        list
    }
}

impl Clone for Events {
    fn clone(&self) -> (r: Events)
        ensures
            crate::span::events_view(r@) == crate::span::events_view(self@),
    {
        let items = self.as_slice();
        let mut list = Events::new();
        let mut i: usize = 0;
        assert(crate::span::events_view(list@) =~= crate::span::events_view(items@).take(0));
        while i < items.len()
            invariant
                i <= items@.len(),
                crate::span::events_view(list@) == crate::span::events_view(items@).take(i as int),
            decreases items.len() - i,
        {
            let ghost before = list@;
            let item = items[i].clone();
            list.push(item);
            assert(crate::span::events_view(list@) =~= crate::span::events_view(before).push(item@));
            assert(crate::span::events_view(items@).take(i + 1) =~= crate::span::events_view(items@).take(
                i as int,
            ).push(items@[i as int]@));
            i += 1;
        }
        assert(crate::span::events_view(items@).take(items@.len() as int) =~= crate::span::events_view(items@));
        list
    }
}

impl Clone for Links {
    fn clone(&self) -> (r: Links)
        ensures
            crate::span::links_view(r@) == crate::span::links_view(self@),
    {
        let items = self.as_slice();
        let mut list = Links::new();
        let mut i: usize = 0;
        assert(crate::span::links_view(list@) =~= crate::span::links_view(items@).take(0));
        while i < items.len()
            invariant
                i <= items@.len(),
                crate::span::links_view(list@) == crate::span::links_view(items@).take(i as int),
            decreases items.len() - i,
        {
            let ghost before = list@;
            let item = items[i].clone();
            list.push(item);
            assert(crate::span::links_view(list@) =~= crate::span::links_view(before).push(item@));
            assert(crate::span::links_view(items@).take(i + 1) =~= crate::span::links_view(items@).take(
                i as int,
            ).push(items@[i as int]@));
            i += 1;
        }
        assert(crate::span::links_view(items@).take(items@.len() as int) =~= crate::span::links_view(items@));
        list
    }
}

} // verus!
