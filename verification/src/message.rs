//! The unit of work: a numbered message carrying a provenance history.

use vstd::prelude::*;
use vstd::string::StringExecFns;
use crate::decimal::{decimal_seq, decimal_string};

verus! {

/// The two provenance stages a message can be stamped with.
#[derive(Debug, Hash, PartialEq, Eq, Structural)]
pub enum HistoryKind {
    Request,
    Response,
}

/// A message's provenance log: at most one annotation per stage.
/// Viewed as a map from stage to annotation text.
#[derive(Debug)]
pub struct History {
    request: Option<String>,
    response: Option<String>,
}

impl View for History {
    type V = Map<HistoryKind, Seq<char>>;

    closed spec fn view(&self) -> Map<HistoryKind, Seq<char>> {
        let with_request = (match self.request {
            Some(s) => Map::<HistoryKind, Seq<char>>::empty().insert(HistoryKind::Request, s@),
            None => Map::<HistoryKind, Seq<char>>::empty(),
        });
        (match self.response {
            Some(s) => with_request.insert(HistoryKind::Response, s@),
            None => with_request,
        })
    }
}

impl History {
    /// An empty provenance log.
    pub fn new() -> (h: History)
        ensures
            h@ == Map::<HistoryKind, Seq<char>>::empty(),
    {
        let h = History { request: None, response: None };
        proof {
            assert(h@ =~= Map::<HistoryKind, Seq<char>>::empty());
        }
        h
    }

    /// Records `value` for `kind`, replacing any earlier annotation of
    /// the same kind.
    pub fn insert(&mut self, kind: HistoryKind, value: String)
        ensures
            final(self)@ == old(self)@.insert(kind, value@),
    {
        match kind {
            HistoryKind::Request => {
                self.request = Some(value);
            },
            HistoryKind::Response => {
                self.response = Some(value);
            },
        }
        proof {
            assert(self@ =~= old(self)@.insert(kind, value@));
        }
    }

    /// The annotation recorded for `kind`, if any.
    pub fn get(&self, kind: HistoryKind) -> (r: Option<&String>)
        ensures
            (match r {
                Some(s) => self@.contains_key(kind) && s@ == self@[kind],
                None => !self@.contains_key(kind),
            }),
    {
        match kind {
            HistoryKind::Request => match &self.request {
                Some(s) => Some(s),
                None => None,
            },
            HistoryKind::Response => match &self.response {
                Some(s) => Some(s),
                None => None,
            },
        }
    }

    /// Whether an annotation is recorded for `kind`.
    pub fn contains(&self, kind: HistoryKind) -> (r: bool)
        ensures
            r == self@.contains_key(kind),
    {
        match self.get(kind) {
            Some(_) => true,
            None => false,
        }
    }
}

/// The mathematical value of a `Message`.
#[verifier::ext_equal]
pub ghost struct MessageView {
    pub name: Seq<char>,
    pub identifier: nat,
    pub history: Map<HistoryKind, Seq<char>>,
}

/// The display label of the message with the given identifier.
pub open spec fn message_name(id: nat) -> Seq<char> {
    "Message #"@ + decimal_seq(id)
}

/// A message is complete when both provenance stages are recorded with
/// non-empty annotations; only complete messages may reach the sink.
pub open spec fn is_complete(m: MessageView) -> bool {
    &&& m.history.contains_key(HistoryKind::Request)
    &&& m.history.contains_key(HistoryKind::Response)
    &&& m.history[HistoryKind::Request].len() > 0
    &&& m.history[HistoryKind::Response].len() > 0
}

/// The unit of work: a numbered item with a display label and a
/// provenance history.
#[derive(Debug)]
pub struct Message {
    pub name: String,
    pub identifier: usize,
    pub history: History,
}

impl View for Message {
    type V = MessageView;

    open spec fn view(&self) -> MessageView {
        MessageView { name: self.name@, identifier: self.identifier as nat, history: self.history@ }
    }
}

/// The message values held by a sequence of messages.
pub open spec fn msg_views(s: Seq<Message>) -> Seq<MessageView> {
    s.map_values(|m: Message| m@)
}

/// The stable one-line rendering of a complete message: its label, its
/// identifier, and both provenance annotations.
pub open spec fn record_line(m: MessageView) -> Seq<char> {
    m.name + " | identifier: "@ + decimal_seq(m.identifier) + " | Request: "@
        + m.history[HistoryKind::Request] + " | Response: "@ + m.history[HistoryKind::Response]
}

impl Message {
    /// A fresh message: the given identifier, the derived label, and an
    /// empty history.
    pub fn new(identifier: usize) -> (m: Message)
        ensures
            m@.name == message_name(identifier as nat),
            m@.identifier == identifier as nat,
            m@.history == Map::<HistoryKind, Seq<char>>::empty(),
    {
        let mut name = "Message #".to_owned();
        let digits = decimal_string(identifier);
        name.append(digits.as_str());
        Message { name, identifier, history: History::new() }
    }

    /// Renders the message as one sink line.
    pub fn render(&self) -> (line: String)
        requires
            self@.history.contains_key(HistoryKind::Request),
            self@.history.contains_key(HistoryKind::Response),
        ensures
            line@ == record_line(self@),
    {
        let mut line = self.name.clone();
        line.append(" | identifier: ");
        let digits = decimal_string(self.identifier);
        line.append(digits.as_str());
        line.append(" | Request: ");
        match self.history.get(HistoryKind::Request) {
            Some(s) => line.append(s.as_str()),
            None => proof {
                assert(false);
            },
        }
        line.append(" | Response: ");
        match self.history.get(HistoryKind::Response) {
            Some(s) => line.append(s.as_str()),
            None => proof {
                assert(false);
            },
        }
        line
    }
}

} // verus!
