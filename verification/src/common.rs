//! The error type shared by every report.

use crate::classifier::Operation;
use std::fmt::Display;
use vstd::prelude::*;
use vstd::string::*;

verus! {

/// A failure that aborts a report: the provider's own description of it, and,
/// where they are known, the call that failed and the item it was made for.
#[derive(Debug, Clone, PartialEq, Eq)]
pub struct AWSError {
    pub(crate) message: String,
    pub(crate) operation: Option<Operation>,
    pub(crate) item: Option<String>,
}

impl View for AWSError {
    type V = Seq<char>;

    /// An error reads as the text of its message.
    open spec fn view(&self) -> Seq<char> {
        self.spec_message()@
    }
}

impl AWSError {
    /// The message that the error carries.
    pub closed spec fn spec_message(&self) -> String {
        self.message
    }

    /// The call that failed, where it is known.
    pub closed spec fn spec_operation(&self) -> Option<Operation> {
        self.operation
    }

    /// The item that the failed call was made for, where there is one.
    pub closed spec fn spec_item(&self) -> Option<String> {
        self.item
    }

    /// The error carries exactly this message and this context.
    pub open spec fn reports(
        &self,
        message: String,
        operation: Option<Operation>,
        item: Option<String>,
    ) -> bool {
        &&& self.spec_message() == message
        &&& self.spec_operation() == operation
        &&& self.spec_item() == item
    }

    /// The text that every rendering of an error starts with.
    pub open spec fn prefix() -> Seq<char> {
        "AWS Error: "@
    }

    /// Wraps anything printable; the message is what `err` prints as. The
    /// error has no context yet.
    pub fn new<T: Display>(err: T) -> (e: Self)
        ensures
            to_string_from_display_ensures::<T>(&err, e.spec_message()),
            e.spec_operation() is None,
            e.spec_item() is None,
    {
        AWSError { message: err.to_string(), operation: None, item: None }
    }

    /// Wraps a message that is already text, unchanged and without context.
    pub fn from_message(message: String) -> (e: Self)
        ensures
            e.reports(message, None, None),
    {
        AWSError { message, operation: None, item: None }
    }

    /// The same error, as one of the call `operation`.
    pub fn during(self, operation: Operation) -> (e: Self)
        ensures
            e.reports(self.spec_message(), Some(operation), self.spec_item()),
    {
        AWSError { message: self.message, operation: Some(operation), item: self.item }
    }

    /// The same error, as one of a call made for `item`.
    pub fn about(self, item: String) -> (e: Self)
        ensures
            e.reports(self.spec_message(), self.spec_operation(), Some(item)),
    {
        AWSError { message: self.message, operation: self.operation, item: Some(item) }
    }

    /// Get a reference to the error's message.
    pub fn message(&self) -> (m: &String)
        ensures
            *m == self.spec_message(),
    {
        &self.message
    }

    /// The call that failed, where it is known.
    pub fn operation(&self) -> (operation: Option<Operation>)
        ensures
            operation == self.spec_operation(),
    {
        self.operation
    }

    /// The item that the failed call was made for, where there is one.
    pub fn item(&self) -> (item: Option<&String>)
        ensures
            item is Some == self.spec_item() is Some,
            item matches Some(name) ==> *name == self.spec_item()->Some_0,
    {
        self.item.as_ref()
    }

    /// The error as a reader sees it: the fixed prefix, then the message.
    pub fn to_text(&self) -> (text: String)
        ensures
            text@ == Self::prefix() + self@,
    {
        let text = String::from_str("AWS Error: ");
        text.concat(self.message.as_str())
    }

    /// A copy with the same message and context.
    pub fn duplicate(&self) -> (e: Self)
        ensures
            e == *self,
    {
        AWSError {
            message: self.message.clone(),
            operation: self.operation,
            item: self.item.clone(),
        }
    }
}

} // verus!
