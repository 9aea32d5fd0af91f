use crate::status::{parse_status, status_named, ParsingError, Status};
use vstd::prelude::*;
use vstd::string::*;

verus! {

/// The longest title, in characters.
pub const TITLE_MAX_CHARS: usize = 50;

/// The longest description, in characters.
pub const DESCRIPTION_MAX_CHARS: usize = 3000;

/// Why a ticket field was refused.
#[derive(Clone, Copy, Debug, PartialEq, Eq, Structural)]
pub enum ValidationError {
    /// A title with no characters.
    EmptyTitle,
    /// A title over 50 characters, refused by `TicketTitle::new`.
    TitleTooLong,
    /// A description over 3000 characters, refused by `TicketDescription::new`.
    DescriptionTooLong,
    /// A title over 50 characters, refused while building a draft.
    DraftTitleTooLong,
    /// A description over 3000 characters, refused while building a draft.
    DraftDescriptionTooLong,
}

impl ValidationError {
    /// The sentence for each reason.
    pub open spec fn message_text(self) -> Seq<char> {
        match self {
            ValidationError::EmptyTitle => "Title cannot be empty!"@,
            ValidationError::TitleTooLong => "A title cannot be longer than 50 characters!"@,
            ValidationError::DescriptionTooLong => "A description cannot be longer than 3000 characters!"@,
            ValidationError::DraftTitleTooLong => "Title cannot be longer than 50 characters!"@,
            ValidationError::DraftDescriptionTooLong => "Description cannot be longer than 3000 characters!"@,
        }
    }

    /// A sentence for a human reader.
    pub fn message(&self) -> (r: String)
        ensures
            r@ == self.message_text(),
    {
        proof {
            reveal_strlit("Title cannot be longer than 50 characters!");
            reveal_strlit("Description cannot be longer than 3000 characters!");
            reveal_strlit("Title cannot be empty!");
            reveal_strlit("A title cannot be longer than 50 characters!");
            reveal_strlit("A description cannot be longer than 3000 characters!");
        }
        match self {
            ValidationError::EmptyTitle => "Title cannot be empty!".to_string(),
            ValidationError::TitleTooLong => "A title cannot be longer than 50 characters!".to_string(),
            ValidationError::DescriptionTooLong => "A description cannot be longer than 3000 characters!".to_string(),
            ValidationError::DraftTitleTooLong => "Title cannot be longer than 50 characters!".to_string(),
            ValidationError::DraftDescriptionTooLong => "Description cannot be longer than 3000 characters!".to_string(),
        }
    }
}

/// A title is accepted when it holds 1 to 50 characters.
pub open spec fn title_ok(s: Seq<char>) -> bool {
    0 < s.len() <= TITLE_MAX_CHARS
}

/// A description is accepted when it holds at most 3000 characters.
pub open spec fn description_ok(s: Seq<char>) -> bool {
    s.len() <= DESCRIPTION_MAX_CHARS
}

/// What constructing a title from `s` gives.
pub open spec fn title_outcome(s: Seq<char>) -> Result<Seq<char>, ValidationError> {
    if s.len() == 0 {
        Err(ValidationError::EmptyTitle)
    } else if s.len() > TITLE_MAX_CHARS {
        Err(ValidationError::TitleTooLong)
    } else {
        Ok(s)
    }
}

/// What constructing a description from `s` gives.
pub open spec fn description_outcome(s: Seq<char>) -> Result<Seq<char>, ValidationError> {
    if s.len() > DESCRIPTION_MAX_CHARS {
        Err(ValidationError::DescriptionTooLong)
    } else {
        Ok(s)
    }
}

/// The view of a constructor's result.
pub open spec fn outcome_view<T: View<V = Seq<char>>>(r: Result<T, ValidationError>) -> Result<
    Seq<char>,
    ValidationError,
> {
    match r {
        Ok(v) => Ok(v@),
        Err(e) => Err(e),
    }
}

/// A ticket title: 1 to 50 characters.
#[derive(Debug, PartialEq, Eq, Hash)]
pub struct TicketTitle(String);

impl Clone for TicketTitle {
    fn clone(&self) -> (r: TicketTitle)
        ensures
            r@ == self@,
    {
        proof {
            use_type_invariant(self);
        }
        TicketTitle(self.0.clone())
    }
}

impl View for TicketTitle {
    type V = Seq<char>;

    closed spec fn view(&self) -> Seq<char> {
        self.0@
    }
}

impl TicketTitle {
    #[verifier::type_invariant]
    pub(crate) open spec fn well_formed(self) -> bool {
        title_ok(self@)
    }

    pub fn new(title: String) -> (r: Result<TicketTitle, ValidationError>)
        ensures
            outcome_view(r) == title_outcome(title@),
    {
        let n = title.as_str().unicode_len();
        if n == 0 {
            return Err(ValidationError::EmptyTitle);
        }
        if n > TITLE_MAX_CHARS {
            return Err(ValidationError::TitleTooLong);
        }
        Ok(TicketTitle(title))
    }

    pub fn as_str(&self) -> (r: &str)
        ensures
            r@ == self@,
    {
        self.0.as_str()
    }
}

/// A ticket description: at most 3000 characters.
#[derive(Debug, PartialEq, Eq, Hash)]
pub struct TicketDescription(String);

impl Clone for TicketDescription {
    fn clone(&self) -> (r: TicketDescription)
        ensures
            r@ == self@,
    {
        proof {
            use_type_invariant(self);
        }
        TicketDescription(self.0.clone())
    }
}

impl View for TicketDescription {
    type V = Seq<char>;

    closed spec fn view(&self) -> Seq<char> {
        self.0@
    }
}

impl TicketDescription {
    #[verifier::type_invariant]
    pub(crate) open spec fn well_formed(self) -> bool {
        description_ok(self@)
    }

    pub fn new(description: String) -> (r: Result<TicketDescription, ValidationError>)
        ensures
            outcome_view(r) == description_outcome(description@),
    {
        let n = description.as_str().unicode_len();
        if n > DESCRIPTION_MAX_CHARS {
            Err(ValidationError::DescriptionTooLong)
        } else {
            Ok(TicketDescription(description))
        }
    }

    pub fn as_str(&self) -> (r: &str)
        ensures
            r@ == self@,
    {
        self.0.as_str()
    }
}

/// What a caller supplies to create a ticket.
#[derive(Clone, Debug, PartialEq, Eq)]
pub struct TicketDraft {
    pub title: TicketTitle,
    pub description: TicketDescription,
}

/// The validated pair of texts that a draft holds.
pub struct DraftView {
    pub title: Seq<char>,
    pub description: Seq<char>,
}

impl View for TicketDraft {
    type V = DraftView;

    open spec fn view(&self) -> DraftView {
        DraftView { title: self.title@, description: self.description@ }
    }
}

/// What building a draft from two texts gives: the title is checked first,
/// and a text over its length cap is reported with the draft's own reasons.
pub open spec fn draft_outcome(title: Seq<char>, description: Seq<char>) -> Result<
    DraftView,
    ValidationError,
> {
    if title.len() == 0 {
        Err(ValidationError::EmptyTitle)
    } else if title.len() > TITLE_MAX_CHARS {
        Err(ValidationError::DraftTitleTooLong)
    } else if description.len() > DESCRIPTION_MAX_CHARS {
        Err(ValidationError::DraftDescriptionTooLong)
    } else {
        Ok(DraftView { title, description })
    }
}

impl TicketDraft {
    pub fn new(title: String, description: String) -> (r: Result<TicketDraft, ValidationError>)
        ensures
            match r {
                Ok(d) => draft_outcome(title@, description@) == Ok::<DraftView, ValidationError>(
                    d@,
                ),
                Err(e) => draft_outcome(title@, description@) == Err::<DraftView, ValidationError>(
                    e,
                ),
            },
    {
        let title = match TicketTitle::new(title) {
            Ok(t) => t,
            Err(ValidationError::TitleTooLong) => return Err(ValidationError::DraftTitleTooLong),
            Err(e) => return Err(e),
        };
        let description = match TicketDescription::new(description) {
            Ok(d) => d,
            Err(_) => return Err(ValidationError::DraftDescriptionTooLong),
        };
        Ok(TicketDraft { title, description })
    }

    pub fn title(&self) -> (r: &TicketTitle)
        ensures
            r@ == self.title@,
    {
        &self.title
    }

    pub fn description(&self) -> (r: &TicketDescription)
        ensures
            r@ == self.description@,
    {
        &self.description
    }
}

/// Builds a draft from raw texts, refusing a title or description that
/// breaks its rule.
pub fn create_ticket_draft(title: String, description: String) -> (r: Result<
    TicketDraft,
    ValidationError,
>)
    ensures
        match r {
            Ok(d) => draft_outcome(title@, description@) == Ok::<DraftView, ValidationError>(d@),
            Err(e) => draft_outcome(title@, description@) == Err::<DraftView, ValidationError>(e),
        },
{
    TicketDraft::new(title, description)
}

/// A partial update: each field that is present replaces the ticket's own.
#[derive(Clone, Debug, PartialEq, Eq)]
pub struct TicketPatch {
    pub title: Option<TicketTitle>,
    pub description: Option<TicketDescription>,
    pub status: Option<Status>,
}

pub struct PatchView {
    pub title: Option<Seq<char>>,
    pub description: Option<Seq<char>>,
    pub status: Option<Status>,
}

impl View for TicketPatch {
    type V = PatchView;

    open spec fn view(&self) -> PatchView {
        PatchView {
            title: match self.title {
                Some(t) => Some(t@),
                None => None,
            },
            description: match self.description {
                Some(d) => Some(d@),
                None => None,
            },
            status: self.status,
        }
    }
}

impl std::str::FromStr for TicketTitle {
    type Err = ParsingError;

    fn from_str(s: &str) -> (r: Result<TicketTitle, ParsingError>)
        ensures
            match title_outcome(s@) {
                Ok(v) => r is Ok && r->Ok_0@ == v,
                Err(e) => r == Err::<TicketTitle, ParsingError>(ParsingError::InvalidField(e)),
            },
    {
        match TicketTitle::new(s.to_owned()) {
            Ok(t) => Ok(t),
            Err(e) => Err(ParsingError::InvalidField(e)),
        }
    }
}

impl std::str::FromStr for TicketDescription {
    type Err = ParsingError;

    fn from_str(s: &str) -> (r: Result<TicketDescription, ParsingError>)
        ensures
            match description_outcome(s@) {
                Ok(v) => r is Ok && r->Ok_0@ == v,
                Err(e) => r == Err::<TicketDescription, ParsingError>(ParsingError::InvalidField(e)),
            },
    {
        match TicketDescription::new(s.to_owned()) {
            Ok(d) => Ok(d),
            Err(e) => Err(ParsingError::InvalidField(e)),
        }
    }
}

/// What building a patch from optional texts gives: title, then
/// description, then status are checked.
pub open spec fn patch_outcome(
    title: Option<Seq<char>>,
    description: Option<Seq<char>>,
    status: Option<Seq<char>>,
) -> Result<PatchView, ParsingError> {
    let t = match title {
        None => Ok(None),
        Some(s) => match title_outcome(s) {
            Ok(v) => Ok(Some(v)),
            Err(e) => Err(ParsingError::InvalidField(e)),
        },
    };
    let d = match description {
        None => Ok(None),
        Some(s) => match description_outcome(s) {
            Ok(v) => Ok(Some(v)),
            Err(e) => Err(ParsingError::InvalidField(e)),
        },
    };
    let st = match status {
        None => Ok(None),
        Some(s) => match status_named(s) {
            Some(v) => Ok(Some(v)),
            None => Err(ParsingError::InvalidStatus),
        },
    };
    match (t, d, st) {
        (Err(e), _, _) => Err(e),
        (Ok(_), Err(e), _) => Err(e),
        (Ok(_), Ok(_), Err(e)) => Err(e),
        (Ok(t), Ok(d), Ok(st)) => Ok(PatchView { title: t, description: d, status: st }),
    }
}

/// Builds a patch from optional texts, each checked on its own when present.
pub fn create_ticket_patch(
    title: Option<String>,
    description: Option<String>,
    status: Option<String>,
) -> (r: Result<TicketPatch, ParsingError>)
    ensures
        match r {
            Ok(p) => patch_outcome(opt_view(title), opt_view(description), opt_view(status))
                == Ok::<PatchView, ParsingError>(p@),
            Err(e) => patch_outcome(opt_view(title), opt_view(description), opt_view(status))
                == Err::<PatchView, ParsingError>(e),
        },
{
    let title = match title {
        None => None,
        Some(s) => match TicketTitle::new(s) {
            Ok(t) => Some(t),
            Err(e) => return Err(ParsingError::InvalidField(e)),
        },
    };
    let description = match description {
        None => None,
        Some(s) => match TicketDescription::new(s) {
            Ok(d) => Some(d),
            Err(e) => return Err(ParsingError::InvalidField(e)),
        },
    };
    let status = match status {
        None => None,
        Some(s) => match parse_status(s.as_str()) {
            Ok(st) => Some(st),
            Err(e) => return Err(e),
        },
    };
    Ok(TicketPatch { title, description, status })
}

/// The characters of an optional text.
pub open spec fn opt_view(s: Option<String>) -> Option<Seq<char>> {
    match s {
        Some(x) => Some(x@),
        None => None,
    }
}

} // verus!
