use vstd::prelude::*;

verus! {

/// What a decision does to an image file.
#[derive(Clone, Debug, PartialEq, Eq)]
pub enum ActionConfig {
    Delete,
    Keep,
    Move { target: String },
    Rename { prefix: String },
    MetadataEdit { key: String, value: String },
}

impl ActionConfig {
    /// A copy equal to `self`.
    pub fn duplicate(&self) -> (res: Self)
        ensures
            res == *self,
    {
        match self {
            ActionConfig::Delete => ActionConfig::Delete,
            ActionConfig::Keep => ActionConfig::Keep,
            ActionConfig::Move { target } => ActionConfig::Move { target: target.clone() },
            ActionConfig::Rename { prefix } => ActionConfig::Rename { prefix: prefix.clone() },
            ActionConfig::MetadataEdit { key, value } => ActionConfig::MetadataEdit {
                key: key.clone(),
                value: value.clone(),
            },
        }
    }

    /// Whether this is the `Delete` action.
    pub fn is_delete(&self) -> (res: bool)
        ensures
            res == (*self is Delete),
    {
        match self {
            ActionConfig::Delete => true,
            _ => false,
        }
    }
}

/// A copy of an optional action, equal to it.
pub fn duplicate_action_opt(a: &Option<ActionConfig>) -> (res: Option<ActionConfig>)
    ensures
        res == *a,
{
    match a {
        Some(x) => Some(x.duplicate()),
        None => None,
    }
}

/// The actions bound to the two decision sides.
#[derive(Clone, Debug)]
pub struct ActionMapping {
    pub left: ActionConfig,
    pub right: ActionConfig,
}

impl ActionMapping {
    /// The action bound to a side.
    pub open spec fn spec_for(&self, side: DecisionSide) -> ActionConfig {
        match side {
            DecisionSide::Left => self.left,
            DecisionSide::Right => self.right,
        }
    }

    /// A copy of the action bound to a side.
    pub fn action_for(&self, side: DecisionSide) -> (res: ActionConfig)
        ensures
            res == self.spec_for(side),
    {
        match side {
            DecisionSide::Left => self.left.duplicate(),
            DecisionSide::Right => self.right.duplicate(),
        }
    }

    /// A copy equal to `self`.
    pub fn duplicate(&self) -> (res: Self)
        ensures
            res == *self,
    {
        ActionMapping { left: self.left.duplicate(), right: self.right.duplicate() }
    }
}

#[derive(Clone, Copy, Debug, PartialEq, Eq, Structural)]
pub enum DecisionSide {
    Left,
    Right,
}

/// Whether an image was decided on, and how.
#[derive(Clone, Debug, PartialEq, Eq)]
pub enum DecisionState {
    Undecided,
    Decided { side: DecisionSide, action: ActionConfig },
}

impl DecisionState {
    pub fn is_undecided(&self) -> (res: bool)
        ensures
            res == (*self is Undecided),
    {
        match self {
            DecisionState::Undecided => true,
            _ => false,
        }
    }

    /// The side of a decided state.
    pub open spec fn spec_side(&self) -> Option<DecisionSide> {
        match self {
            DecisionState::Decided { side, .. } => Some(*side),
            DecisionState::Undecided => None,
        }
    }

    /// A copy equal to `self`.
    pub fn duplicate(&self) -> (res: Self)
        ensures
            res == *self,
    {
        match self {
            DecisionState::Undecided => DecisionState::Undecided,
            DecisionState::Decided { side, action } => DecisionState::Decided {
                side: *side,
                action: action.duplicate(),
            },
        }
    }
}

} // verus!
