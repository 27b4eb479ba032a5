//! The viewer's state machine: what each message does to the displayed
//! state, and which follow-up work the event loop has to perform.

use vstd::prelude::*;

use crate::db::{sample, sample_schema, Schema};
use crate::erd::{toggled, Erd};
use crate::text::{after_last, starts_with_char, str_after_last, str_eq};

verus! {

/// `Result`'s derived `clone`: a copy of the same variant, whose payload is
/// a clone of the original's.
pub assume_specification<T: Clone, E: Clone>[ <Result<T, E> as Clone>::clone ](
    r: &Result<T, E>,
) -> (res: Result<T, E>)
    ensures
        r is Ok <==> res is Ok,
        r is Ok ==> cloned::<T>(r->Ok_0, res->Ok_0),
        r is Err ==> cloned::<E>(r->Err_0, res->Err_0),
;

/// A message handled by [`Pgerd::update`].
#[derive(Debug, Clone)]
pub enum Message {
    /// The schema query finished, with the schema or an error text.
    SchemaLoaded(Result<Schema, String>),
    /// Collapse or expand a table node.
    ToggleNode(u32),
    /// Expand every table node (the `+` key).
    ExpandAll,
    /// Contract every table node (the `-` key).
    ContractAll,
    /// The cursor entered the node for table `node`.
    NodeHovered(u32),
    /// The cursor left the node for table `node`; only clears the hover if
    /// that node is still the hovered one (enter/leave pairs for different
    /// nodes can arrive out of order in a single cursor move).
    NodeUnhovered(u32),
}

/// Work that the event loop performs after an update.
#[derive(Debug)]
pub enum Effect {
    /// Snapshot the displayed graph, prime the animation and rebuild the
    /// graph widget (after a node changes size).
    Invalidate,
    /// Make the graph widget re-render (after the hover changes).
    ForceReview,
    /// Deliver this message to [`Pgerd::update`] next.
    Send(Message),
}

/// What the viewer shows.
#[derive(Debug)]
pub enum Status {
    Loading,
    Error(String),
    Ready(Erd),
}

/// The viewer's state.
#[derive(Debug)]
pub struct Pgerd {
    pub status: Status,
    pub url: String,
    /// When true (the `debug` pseudo-URL) render table nodes in a plain list.
    pub plain: bool,
}

/// The URL is one of the two pseudo-URLs that preview the sample schema.
pub open spec fn is_preview_url(url: Seq<char>) -> bool {
    url == "debug"@ || url == "debug-graph"@
}

/// The display state of `new` is that of `old` after `message`, and
/// `effects` is the work it asks for.
pub open spec fn update_spec(old: Pgerd, new: Pgerd, message: Message, effects: Seq<Effect>) -> bool {
    &&& new.url == old.url
    &&& new.plain == old.plain
    &&& match message {
        Message::SchemaLoaded(Ok(schema)) => {
            &&& new.status matches Status::Ready(erd) && erd.is_built_from(schema@)
            &&& effects.len() == 0
        },
        Message::SchemaLoaded(Err(error)) => {
            &&& new.status matches Status::Error(text) && text@ == error@
            &&& effects.len() == 0
        },
        Message::ToggleNode(node) => {
            &&& match old.status {
                Status::Ready(erd) => new.status matches Status::Ready(erd2) && erd2.same_graph(erd)
                    && erd2.collapsed@ == toggled(erd.collapsed@, node) && erd2.hovered_node
                    == erd.hovered_node,
                _ => new.status == old.status,
            }
            &&& effects == seq![Effect::Invalidate, Effect::Send(Message::NodeHovered(node))]
        },
        Message::ExpandAll | Message::ContractAll => {
            let collapse = message is ContractAll;
            match old.status {
                Status::Ready(erd) => {
                    &&& new.status matches Status::Ready(erd2) && erd2.same_graph(erd)
                        && erd2.collapsed@ == Seq::new(erd.collapsed@.len(), |i: int| collapse)
                        && erd2.hovered_node == erd.hovered_node
                    &&& effects == seq![
                        Effect::Invalidate,
                        match erd.hovered_node {
                            Some(node) => Effect::Send(Message::NodeHovered(node)),
                            None => Effect::Send(Message::NodeUnhovered(0)),
                        },
                    ]
                },
                _ => {
                    &&& new.status == old.status
                    &&& effects == seq![Effect::Invalidate]
                },
            }
        },
        Message::NodeHovered(node) => {
            &&& match old.status {
                Status::Ready(erd) => new.status matches Status::Ready(erd2) && erd2.same_graph(erd)
                    && erd2.collapsed@ == erd.collapsed@ && erd2.hovered_node == Some(node),
                _ => new.status == old.status,
            }
            &&& effects == seq![Effect::ForceReview]
        },
        Message::NodeUnhovered(node) => {
            &&& match old.status {
                Status::Ready(erd) => new.status matches Status::Ready(erd2) && erd2.same_graph(erd)
                    && erd2.collapsed@ == erd.collapsed@ && erd2.hovered_node == if erd.hovered_node
                    == Some(node) {
                    None
                } else {
                    erd.hovered_node
                },
                _ => new.status == old.status,
            }
            &&& effects == seq![Effect::ForceReview]
        },
    }
}

impl Pgerd {
    /// The initial state for `url`, and whether the schema at `url` still has
    /// to be loaded. The pseudo-URL `debug` previews the sample schema's
    /// nodes in a plain list; `debug-graph` runs it through the full graph
    /// layout.
    pub fn new(url: &str) -> (r: (Pgerd, bool))
        ensures
            r.0.url@ == url@,
            r.0.plain == (url@ == "debug"@),
            r.1 == !is_preview_url(url@),
            is_preview_url(url@) ==> (r.0.status matches Status::Ready(erd) && erd.is_built_from(
                sample_schema(),
            )),
            !is_preview_url(url@) ==> r.0.status is Loading,
    {
        let is_debug = str_eq(url, "debug");
        if is_debug || str_eq(url, "debug-graph") {
            let schema = sample();
            assert(crate::db::table_views(schema.tables@).len() == schema.tables@.len());
            let erd = Erd::build(&schema);
            (Pgerd { status: Status::Ready(erd), url: String::from_str(url), plain: is_debug }, false)
        } else {
            (Pgerd { status: Status::Loading, url: String::from_str(url), plain: false }, true)
        }
    }

    /// Apply `message` and return the work it asks for.
    pub fn update(&mut self, message: Message) -> (effects: Vec<Effect>)
        requires
            (message matches Message::SchemaLoaded(Ok(schema)) ==> schema.tables@.len() <= u32::MAX),
        ensures
            update_spec(*old(self), *final(self), message, effects@),
            (message is SchemaLoaded || (old(self).status matches Status::Ready(erd) ==> erd.wf()))
                ==> (final(self).status matches Status::Ready(erd) ==> erd.wf()),
    {
        match message {
            Message::SchemaLoaded(result) => {
                self.status = match result {
                    Ok(schema) => Status::Ready(Erd::build(&schema)),
                    Err(error) => Status::Error(error),
                };
                Vec::new()
            },
            Message::ToggleNode(node) => {
                match &mut self.status {
                    Status::Ready(erd) => erd.toggle_node(node),
                    _ => {},
                }
                let mut effects = Vec::new();
                effects.push(Effect::Invalidate);
                effects.push(Effect::Send(Message::NodeHovered(node)));
                assert(effects@ =~= seq![Effect::Invalidate, Effect::Send(Message::NodeHovered(node))]);
                effects
            },
            Message::ExpandAll | Message::ContractAll => {
                let collapse = match message {
                    Message::ContractAll => true,
                    _ => false,
                };
                let mut effects = Vec::new();
                effects.push(Effect::Invalidate);
                match &mut self.status {
                    Status::Ready(erd) => {
                        erd.set_all_collapsed(collapse);
                        match erd.hovered_node {
                            Some(node) => {
                                effects.push(Effect::Send(Message::NodeHovered(node)));
                                assert(effects@ =~= seq![
                                    Effect::Invalidate,
                                    Effect::Send(Message::NodeHovered(node)),
                                ]);
                            },
                            None => {
                                effects.push(Effect::Send(Message::NodeUnhovered(0)));
                                assert(effects@ =~= seq![
                                    Effect::Invalidate,
                                    Effect::Send(Message::NodeUnhovered(0)),
                                ]);
                            },
                        }
                    },
                    _ => {},
                }
                assert(effects@.len() == 1 ==> effects@ =~= seq![Effect::Invalidate]);
                assert(old(self).status matches Status::Ready(e) ==> effects@ == seq![
                    Effect::Invalidate,
                    match e.hovered_node {
                        Some(node) => Effect::Send(Message::NodeHovered(node)),
                        None => Effect::Send(Message::NodeUnhovered(0)),
                    },
                ]);
                effects
            },
            Message::NodeHovered(node) => {
                match &mut self.status {
                    Status::Ready(erd) => {
                        erd.hovered_node = Some(node);
                    },
                    _ => {},
                }
                let mut effects = Vec::new();
                effects.push(Effect::ForceReview);
                assert(effects@ =~= seq![Effect::ForceReview]);
                effects
            },
            Message::NodeUnhovered(node) => {
                match &mut self.status {
                    Status::Ready(erd) => {
                        if erd.hovered_node == Some(node) {
                            erd.hovered_node = None;
                        }
                    },
                    _ => {},
                }
                let mut effects = Vec::new();
                effects.push(Effect::ForceReview);
                assert(effects@ =~= seq![Effect::ForceReview]);
                effects
            },
        }
    }

    /// The window title: the part of the URL after the last `@`
    /// (host/database), hiding credentials.
    pub fn title(&self) -> (t: String)
        ensures
            t@ == "pgerd — "@ + after_last(self.url@, '@'),
    {
        let display = str_after_last(self.url.as_str(), '@');
        let mut t = String::from_str("pgerd — ");
        t.append(display);
        t
    }
}

/// Translate a pressed character key into an expand/contract-all message:
/// `+` expands every node, `-` contracts them all, anything else is ignored.
pub fn key_message(key: &str) -> (m: Option<Message>)
    ensures
        m == if key@ == "+"@ {
            Some(Message::ExpandAll)
        } else if key@ == "-"@ {
            Some(Message::ContractAll)
        } else {
            None::<Message>
        },
{
    if str_eq(key, "+") {
        Some(Message::ExpandAll)
    } else if str_eq(key, "-") {
        Some(Message::ContractAll)
    } else {
        None
    }
}

/// The database URL from the command-line arguments (program name
/// excluded): exactly one argument that does not start with `-`.
pub fn url_from_args(args: &Vec<String>) -> (url: Option<String>)
    ensures
        url matches Some(u) ==> u@ == args@[0]@,
        url is Some <==> (args@.len() == 1 && !(args@[0]@.len() > 0 && args@[0]@[0] == '-')),
{
    if args.len() == 1 && !starts_with_char(args[0].as_str(), '-') {
        Some(args[0].clone())
    } else {
        None
    }
}


/// Hovering a node and then leaving it clears the hover, and changes
/// nothing else of the display state.
pub proof fn law_hover_then_leave_clears(
    s0: Pgerd,
    s1: Pgerd,
    s2: Pgerd,
    node: u32,
    e1: Seq<Effect>,
    e2: Seq<Effect>,
)
    requires
        s0.status is Ready,
        update_spec(s0, s1, Message::NodeHovered(node), e1),
        update_spec(s1, s2, Message::NodeUnhovered(node), e2),
    ensures
        s2.status matches Status::Ready(erd2) && erd2.hovered_node is None && erd2.same_graph(
            s0.status->Ready_0,
        ) && erd2.collapsed@ == s0.status->Ready_0.collapsed@,
{
}

/// Leaving a node that is no longer the hovered one (a late leave after the
/// cursor entered another node) keeps the current hover.
pub proof fn law_stale_leave_keeps_hover(s0: Pgerd, s1: Pgerd, node: u32, effects: Seq<Effect>)
    requires
        s0.status matches Status::Ready(erd) && erd.hovered_node != Some(node),
        update_spec(s0, s1, Message::NodeUnhovered(node), effects),
    ensures
        s1.status matches Status::Ready(erd1) && erd1.hovered_node == s0.status->Ready_0.hovered_node,
{
}

/// Toggling the same node twice restores the collapsed flags.
pub proof fn law_toggle_twice_restores_view(
    s0: Pgerd,
    s1: Pgerd,
    s2: Pgerd,
    node: u32,
    e1: Seq<Effect>,
    e2: Seq<Effect>,
)
    requires
        s0.status is Ready,
        update_spec(s0, s1, Message::ToggleNode(node), e1),
        update_spec(s1, s2, Message::ToggleNode(node), e2),
    ensures
        s2.status matches Status::Ready(erd2) && erd2.collapsed@ == s0.status->Ready_0.collapsed@
            && erd2.same_graph(s0.status->Ready_0),
{
    crate::erd::law_toggle_twice_restores(s0.status->Ready_0.collapsed@, node);
}

/// Expanding every node and then contracting every node leaves all nodes
/// collapsed, whatever their state before; the hover highlight is re-sent
/// each time.
pub proof fn law_contract_all_after_expand_all(
    s0: Pgerd,
    s1: Pgerd,
    s2: Pgerd,
    e1: Seq<Effect>,
    e2: Seq<Effect>,
)
    requires
        s0.status is Ready,
        update_spec(s0, s1, Message::ExpandAll, e1),
        update_spec(s1, s2, Message::ContractAll, e2),
    ensures
        s2.status matches Status::Ready(erd2) && erd2.collapsed@ == Seq::new(
            s0.status->Ready_0.collapsed@.len(),
            |i: int| true,
        ),
        e1.len() == 2 && e2.len() == 2,
{
}

/// Until the schema is loaded (or after it failed), interface messages
/// change nothing but still ask for their follow-up work.
pub proof fn law_ui_messages_ignored_until_ready(
    s0: Pgerd,
    s1: Pgerd,
    message: Message,
    effects: Seq<Effect>,
)
    requires
        !(s0.status is Ready),
        !(message is SchemaLoaded),
        update_spec(s0, s1, message, effects),
    ensures
        s1.status == s0.status,
        effects.len() >= 1,
{
}


/// The follow-up work of each message: a load asks for none; a toggle asks
/// for a rebuild and then re-sends the hover of the toggled node; hover
/// changes ask for a re-render; expanding or contracting everything asks
/// for a rebuild and, once the graph is shown, re-sends the current hover
/// (or clears it). The URL and the plain-list choice never change, a failed
/// load shows its error text, and hovering a node of a shown graph makes it
/// the hovered node.
pub proof fn law_update_effects(s0: Pgerd, s1: Pgerd, message: Message, effects: Seq<Effect>)
    requires
        update_spec(s0, s1, message, effects),
    ensures
        s1.url == s0.url,
        s1.plain == s0.plain,
        message is SchemaLoaded ==> effects.len() == 0,
        message matches Message::SchemaLoaded(Err(e)) ==> (s1.status matches Status::Error(t) && t@ == e@),
        message matches Message::ToggleNode(n) ==> effects.len() == 2 && effects[0] is Invalidate
            && effects[1] == Effect::Send(Message::NodeHovered(n)),
        message is NodeHovered || message is NodeUnhovered ==> effects.len() == 1 && effects[0] is ForceReview,
        s0.status is Ready ==> (message matches Message::NodeHovered(n) ==> (s1.status matches Status::Ready(e)
            && e.hovered_node == Some(n))),
        message is ExpandAll || message is ContractAll ==> effects.len() >= 1 && effects[0] is Invalidate
            && (s0.status is Ready <==> effects.len() == 2) && (s0.status matches Status::Ready(e)
            ==> effects[1] == Effect::Send(
            if let Some(h) = e.hovered_node {
                Message::NodeHovered(h)
            } else {
                Message::NodeUnhovered(0)
            },
        )),
{
}

} // verus!
