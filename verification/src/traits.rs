//! Trait-shaped interfaces and small types implementing them: a counting
//! iterator, shapes, collections, drawables, validation bounds and
//! processors, together with a plain person record.

use vstd::prelude::*;

verus! {

/// A hand-rolled iterator interface.
pub trait MyIterator {
    type Item;

    /// The next element, until the iterator is done.
    fn next(&mut self) -> Option<Self::Item>;
}

/// Counts from one up to a fixed bound.
pub struct Counter {
    pub count: u32,
    pub max: u32,
}

impl Counter {
    /// A counter that will yield `1` to `max` in order.
    pub fn new(max: u32) -> (r: Counter)
        ensures
            r.count == 0,
            r.max == max,
    {
        Counter { count: 0, max }
    }
}

impl MyIterator for Counter {
    type Item = u32;

    fn next(&mut self) -> (r: Option<u32>)
        ensures
            old(self).count < old(self).max ==> r == Some((old(self).count + 1) as u32)
                && final(self).count == old(self).count + 1,
            old(self).count >= old(self).max ==> r is None && *final(self) == *old(self),
            final(self).max == old(self).max,
    {
        if self.count < self.max {
            self.count = self.count + 1;
            Some(self.count)
        } else {
            None
        }
    }
}

/// A figure with a point type and an area type of its own choosing.
pub trait Shape {
    type Point;

    type Area;

    fn area(&self) -> Self::Area;

    fn contains(&self, point: &Self::Point) -> bool;
}

/// An indexable collection.
pub trait Collection {
    type Item;

    /// The element at `index`, if the collection is that long.
    fn get(&self, index: usize) -> Option<Self::Item>;

    fn len(&self) -> usize;
}

/// A growable collection of strings.
pub struct StringCollection {
    items: Vec<String>,
}

impl View for StringCollection {
    type V = Seq<String>;

    closed spec fn view(&self) -> Seq<String> {
        self.items@
    }
}

impl StringCollection {
    /// An empty collection.
    pub fn new() -> (r: StringCollection)
        ensures
            r@.len() == 0,
    {
        StringCollection { items: Vec::new() }
    }

    /// Appends one string.
    pub fn push(&mut self, item: String)
        ensures
            final(self)@ == old(self)@.push(item),
    {
        self.items.push(item);
    }
}

impl Collection for StringCollection {
    type Item = String;

    fn get(&self, index: usize) -> (r: Option<String>)
        ensures
            index < self@.len() ==> r == Some(self@[index as int]),
            index >= self@.len() ==> r is None,
    {
        if index < self.items.len() {
            Some(self.items[index].clone())
        } else {
            None
        }
    }

    fn len(&self) -> (r: usize)
        ensures
            r == self@.len(),
    {
        self.items.len()
    }
}

/// Something that can render itself into a line of text.
pub trait Drawable {
    /// The line that would be drawn for this value.
    fn draw(&self) -> String;
}

/// Renders each item's line, in order.
pub fn draw_all<T: Drawable>(items: &Vec<T>) -> (r: Vec<String>)
    ensures
        r@.len() == items@.len(),
{
    let n = items.len();
    let mut out: Vec<String> = Vec::new();
    let mut i: usize = 0;
    while i < n
        invariant
            0 <= i <= n,
            n == items@.len(),
            out@.len() == i,
        decreases n - i,
    {
        out.push(items[i].draw());
        i = i + 1;
    }
    out
}

/// A drawable that can also be read back as text.
pub trait Readable: Drawable {
    fn read(&self) -> String;
}

/// A plain piece of text.
pub struct Text {
    pub content: String,
}

impl Drawable for Text {
    fn draw(&self) -> String {
        self.content.clone()
    }
}

impl Readable for Text {
    fn read(&self) -> (r: String)
        ensures
            r@ == self.content@,
    {
        self.content.clone()
    }
}

/// A range an implementer declares and validates against.
pub trait Constants {
    /// The largest acceptable value.
    fn max_value(&self) -> u32;

    /// The smallest acceptable value.
    fn min_value(&self) -> u32;
}

/// Accepts values between zero and one hundred.
pub struct Validator;

impl Constants for Validator {
    fn max_value(&self) -> (r: u32)
        ensures
            r == 100,
    {
        100
    }

    fn min_value(&self) -> (r: u32)
        ensures
            r == 0,
    {
        0
    }
}

impl Validator {
    /// Whether `value` lies inside the validator's range.
    pub fn is_valid(&self, value: u32) -> (r: bool)
        ensures
            r == (value <= 100),
    {
        self.min_value() <= value && value <= self.max_value()
    }
}

/// A value that can be turned into another representation.
pub trait Converter {
    type Output;

    fn convert(self) -> Self::Output;
}

impl Converter for i32 {
    type Output = i64;

    fn convert(self) -> (r: i64)
        ensures
            r == self,
    {
        self as i64
    }
}

/// A step from an input type to an output type.
pub trait Processor {
    type Input;

    type Output;

    fn process(&self, input: Self::Input) -> Self::Output;
}

/// Doubles integers into the wider type.
pub struct IntProcessor;

impl Processor for IntProcessor {
    type Input = i32;

    type Output = i64;

    fn process(&self, input: i32) -> (r: i64)
        ensures
            r == 2 * input,
    {
        input as i64 * 2
    }
}

/// A value that can hand out an equal copy of itself.
pub trait Cloneable: Sized {
    /// An equal copy.
    fn duplicate(&self) -> Self;
}

/// A person on record.
#[derive(Clone, Debug)]
pub struct Person {
    pub name: String,
    pub age: u32,
    pub email: String,
}

impl Person {
    /// A person with the given particulars.
    pub fn new(name: &str, age: u32, email: &str) -> (r: Person)
        ensures
            r.name@ == name@,
            r.age == age,
            r.email@ == email@,
    {
        Person { name: name.to_owned(), email: email.to_owned(), age }
    }
}

impl Cloneable for Person {
    fn duplicate(&self) -> (r: Person)
        ensures
            r.name@ == self.name@,
            r.age == self.age,
            r.email@ == self.email@,
    {
        Person { name: self.name.clone(), age: self.age, email: self.email.clone() }
    }
}

} // verus!
