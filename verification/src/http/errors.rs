use vstd::prelude::*;

verus! {

/// A request line or a header line that does not follow the HTTP syntax this
/// server accepts; it holds the message that explains why.
#[derive(Debug)]
pub struct HttpParseError(String);

impl View for HttpParseError {
    type V = Seq<char>;

    closed spec fn view(&self) -> Seq<char> {
        self.0@
    }
}

impl HttpParseError {
    /// An error with the given message.
    pub fn new(message: String) -> (e: Self)
        ensures
            e@ == message@,
    {
        HttpParseError(message)
    }

    /// The message of this error.
    pub fn message(&self) -> (m: String)
        ensures
            m@ == self@,
    {
        self.0.clone()
    }
}

/// Headers that break one of the rules this server puts on requests; it holds
/// the message that explains why.
#[derive(Debug)]
pub struct HttpValidationError(String);

impl View for HttpValidationError {
    type V = Seq<char>;

    closed spec fn view(&self) -> Seq<char> {
        self.0@
    }
}

impl HttpValidationError {
    /// An error with the given message.
    pub fn new(message: String) -> (e: Self)
        ensures
            e@ == message@,
    {
        HttpValidationError(message)
    }

    /// The message of this error.
    pub fn message(&self) -> (m: String)
        ensures
            m@ == self@,
    {
        self.0.clone()
    }
}

/// A handler that could not be registered; it holds the message that explains why.
#[derive(Debug)]
pub struct HandlerRegistrationError(String);

impl View for HandlerRegistrationError {
    type V = Seq<char>;

    closed spec fn view(&self) -> Seq<char> {
        self.0@
    }
}

impl HandlerRegistrationError {
    /// An error with the given message.
    pub fn new(message: String) -> (e: Self)
        ensures
            e@ == message@,
    {
        HandlerRegistrationError(message)
    }

    /// The message of this error.
    pub fn message(&self) -> (m: String)
        ensures
            m@ == self@,
    {
        self.0.clone()
    }
}

} // verus!
