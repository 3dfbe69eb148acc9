use vstd::prelude::*;

verus! {

/// The logical data type that a column reports for all of its rows.
#[derive(Clone, Copy, Debug, PartialEq, Eq, Structural)]
pub enum DataType {
    /// Semi-structured documents (JSON).
    Variant,
    /// Plain text.
    String,
}

/// The error of a value type that could not read a text.
#[derive(Clone, Copy, Debug, PartialEq, Eq, Structural)]
pub struct ParseError;

/// What a type must offer to be stored in an object column: a default
/// value, reading from text, writing to text, duplication, and the data type
/// of the column as a whole.
///
/// Each value has a mathematical `Model`; two values with the same model are
/// interchangeable as far as the column is concerned.
pub trait ObjectType: Sized {
    type Model;

    spec fn model(&self) -> Self::Model;

    /// The value that `text` reads as, or `None` where it is not a value.
    spec fn parse_spec(text: Seq<char>) -> Option<Self::Model>;

    /// The text that a value is written as.
    spec fn render_spec(m: Self::Model) -> Seq<char>;

    /// The value that stands in for nulls and unreadable text.
    spec fn default_spec() -> Self::Model;

    /// The value that stands in for nulls and unreadable text.
    fn default_value() -> (r: Self)
        ensures
            r.model() == Self::default_spec(),
    ;

    /// Reads a value from its text.
    fn from_text(text: &str) -> (r: Result<Self, ParseError>)
        ensures
            match r {
                Ok(v) => Self::parse_spec(text@) == Some(v.model()),
                Err(_) => Self::parse_spec(text@) is None,
            },
    ;

    /// Writes the value as text.
    fn to_text(&self) -> (r: String)
        ensures
            r@ == Self::render_spec(self.model()),
    ;

    /// A copy of the value.
    fn duplicate(&self) -> (r: Self)
        ensures
            r.model() == self.model(),
    ;

    /// The data type that `data_type` returns.
    spec fn data_type_spec() -> DataType;

    /// The data type that a column of this type reports.
    fn data_type() -> (r: DataType)
        ensures
            r == Self::data_type_spec(),
    ;
}

/// Text stored as itself: every text reads back as the same text.
impl ObjectType for String {
    type Model = Seq<char>;

    open spec fn model(&self) -> Seq<char> {
        self@
    }

    open spec fn parse_spec(text: Seq<char>) -> Option<Seq<char>> {
        Some(text)
    }

    open spec fn render_spec(m: Seq<char>) -> Seq<char> {
        m
    }

    open spec fn default_spec() -> Seq<char> {
        Seq::empty()
    }

    fn default_value() -> (r: String) {
        String::new()
    }

    fn from_text(text: &str) -> (r: Result<String, ParseError>) {
        Ok(text.to_owned())
    }

    fn to_text(&self) -> (r: String) {
        self.clone()
    }

    fn duplicate(&self) -> (r: String) {
        self.clone()
    }

    open spec fn data_type_spec() -> DataType {
        DataType::String
    }

    fn data_type() -> (r: DataType) {
        DataType::String
    }
}

} // verus!
