use vstd::prelude::*;

verus! {

/// A structured failure from an entity-level operation.
#[derive(Debug)]
pub enum ActionError {
    /// A field name outside the permitted key set for the operation.
    KeysUnallowed,
    /// A pipeline ended in an `Invalid` stage for the named field; the
    /// message is the modifier-supplied, user-facing reason.
    InvalidInput { key: String, message: String },
    /// An opaque failure from the storage backend, propagated unchanged.
    ConnectorFailure { message: String },
}

/// The mathematical content of an `ActionError`.
pub ghost enum ActionErrorView {
    KeysUnallowed,
    InvalidInput { key: Seq<char>, message: Seq<char> },
    ConnectorFailure { message: Seq<char> },
}

impl View for ActionError {
    type V = ActionErrorView;

    open spec fn view(&self) -> ActionErrorView {
        match self {
            ActionError::KeysUnallowed => ActionErrorView::KeysUnallowed,
            ActionError::InvalidInput { key, message } => (ActionErrorView::InvalidInput {
                key: key@,
                message: message@,
            }),
            ActionError::ConnectorFailure { message } => (ActionErrorView::ConnectorFailure {
                message: message@,
            }),
        }
    }
}

impl ActionError {
    pub fn keys_unallowed() -> (r: ActionError)
        ensures
            r@ == ActionErrorView::KeysUnallowed,
    {
        ActionError::KeysUnallowed
    }

    pub fn invalid_input(key: String, message: String) -> (r: ActionError)
        ensures
            r@ == (ActionErrorView::InvalidInput { key: key@, message: message@ }),
    {
        ActionError::InvalidInput { key, message }
    }

    pub fn connector_failure(message: String) -> (r: ActionError)
        ensures
            r@ == (ActionErrorView::ConnectorFailure { message: message@ }),
    {
        ActionError::ConnectorFailure { message }
    }
}

} // verus!
