//! The requests that a node sends to its record database (a BaseX server
//! spoken to over REST): setting up the node's document, then inserting
//! records into it.

use vstd::prelude::*;
use crate::text::{contains_text, text_contains};

verus! {

/// The name of the database that holds the nodes' documents.
pub const DB_NAME: &'static str = "dht-db";

/// The REST endpoint of the database.
pub const REST_URL: &'static str = "http://127.0.0.1:8080/rest/";

/// The name of a node's document: the node's identifier and `.xml`.
pub open spec fn document_name(node: Seq<char>) -> Seq<char> {
    node + ".xml"@
}

/// The body of the command that lists the documents of the database.
pub open spec fn list_command_text() -> Seq<char> {
    "\n            <command>\n                <text>LIST "@ + DB_NAME@
        + "</text>\n            </command>"@
}

/// The address that creates a node's document, holding an empty `sysinfo`
/// element.
pub open spec fn add_document_url_text(node: Seq<char>) -> Seq<char> {
    REST_URL@ + DB_NAME@ + "?command=ADD+TO+"@ + document_name(node) + "+<sysinfo></sysinfo>"@
}

/// The body of the query that appends a record to a node's document.
pub open spec fn insert_query_text(node: Seq<char>, record: Seq<char>) -> Seq<char> {
    "<query>\n                    <text>\n                        insert node .//record as last into doc('"@
        + DB_NAME@ + "/"@ + document_name(node)
        + "')/sysinfo\n                    </text>\n                    <context>"@ + record
        + "</context>\n                 </query>"@
}

/// The body of the command that lists the documents of the database.
pub fn list_command_body() -> (body: String)
    ensures
        body@ == list_command_text(),
        body@ == "\n            <command>\n                <text>LIST dht-db</text>\n            </command>"@,
{
    proof {
        lemma_list_command_names_database();
    }
    let mut body = "\n            <command>\n                <text>LIST ".to_owned();
    body.append(DB_NAME);
    body.append("</text>\n            </command>");
    body
}

/// The name of a node's document.
pub fn document_file_name(node: &str) -> (name: String)
    ensures
        name@ == document_name(node@),
        name@ == node@ + ".xml"@,
{
    let mut name = node.to_owned();
    name.append(".xml");
    name
}

/// The address that creates a node's document.
pub fn add_document_url(node: &str) -> (url: String)
    ensures
        url@ == add_document_url_text(node@),
        url@ == "http://127.0.0.1:8080/rest/dht-db?command=ADD+TO+"@ + node@ + ".xml+<sysinfo></sysinfo>"@,
{
    proof {
        lemma_document_requests_name_whole_node(node@, Seq::empty());
    }
    let mut url = REST_URL.to_owned();
    url.append(DB_NAME);
    url.append("?command=ADD+TO+");
    let name = document_file_name(node);
    url.append(name.as_str());
    url.append("+<sysinfo></sysinfo>");
    url
}

/// The body of the query that appends `record` to the node's document.
pub fn insert_record_query(node: &str, record: &str) -> (query: String)
    ensures
        query@ == insert_query_text(node@, record@),
        query@ == "<query>\n                    <text>\n                        insert node .//record as last into doc('dht-db/"@
            + node@ + ".xml')/sysinfo\n                    </text>\n                    <context>"@ + record@
            + "</context>\n                 </query>"@,
{
    proof {
        lemma_document_requests_name_whole_node(node@, record@);
    }
    let mut query = "<query>\n                    <text>\n                        insert node .//record as last into doc('".to_owned();
    query.append(DB_NAME);
    query.append("/");
    let name = document_file_name(node);
    query.append(name.as_str());
    query.append("')/sysinfo\n                    </text>\n                    <context>");
    query.append(record);
    query.append("</context>\n                 </query>");
    query
}

/// Whether the database's listing already names the node's document.
pub fn has_document(listing: &str, node: &str) -> (found: bool)
    ensures
        found == text_contains(listing@, document_name(node@)),
        found == text_contains(listing@, node@ + ".xml"@),
{
    let name = document_file_name(node);
    contains_text(listing, name.as_str())
}

/// Where a node stands in setting up its document.
#[derive(PartialEq, Eq, Structural, Clone, Copy)]
pub enum SetupStage {
    /// Nothing has been sent yet.
    Start,
    /// The listing command has been sent; its reply is awaited.
    AwaitingListing,
    /// The creation of the document has been asked; its reply is awaited.
    AwaitingCreation,
    /// The document exists.
    Connected,
}

/// What the node sends next while setting up its document.
pub enum SetupAction {
    /// Post this command body to the REST endpoint.
    PostCommand { body: String },
    /// Send a GET request to this address.
    Get { url: String },
    /// Nothing more: the setup is over.
    Done,
}

/// The mathematical form of a [`SetupAction`].
pub enum SetupActionView {
    PostCommand(Seq<char>),
    Get(Seq<char>),
    Done,
}

impl View for SetupAction {
    type V = SetupActionView;

    open spec fn view(&self) -> SetupActionView {
        match self {
            SetupAction::PostCommand { body } => SetupActionView::PostCommand(body@),
            SetupAction::Get { url } => SetupActionView::Get(url@),
            SetupAction::Done => SetupActionView::Done,
        }
    }
}

/// One step of the setup: from the current stage and the text of the last
/// reply (ignored where no reply is awaited), the next stage and what to
/// send. The document is created only when the listing does not name it.
pub open spec fn setup_next(stage: SetupStage, node: Seq<char>, reply: Seq<char>) -> (SetupStage, SetupActionView) {
    match stage {
        SetupStage::Start => (SetupStage::AwaitingListing, SetupActionView::PostCommand(list_command_text())),
        SetupStage::AwaitingListing => {
            if text_contains(reply, document_name(node)) {
                (SetupStage::Connected, SetupActionView::Done)
            } else {
                (SetupStage::AwaitingCreation, SetupActionView::Get(add_document_url_text(node)))
            }
        },
        SetupStage::AwaitingCreation => (SetupStage::Connected, SetupActionView::Done),
        SetupStage::Connected => (SetupStage::Connected, SetupActionView::Done),
    }
}

/// Takes one step of the setup of the node's document.
pub fn setup_step(stage: SetupStage, node: &str, reply: &str) -> (next: (SetupStage, SetupAction))
    ensures
        (next.0, next.1@) == setup_next(stage, node@, reply@),
{
    match stage {
        SetupStage::Start => (SetupStage::AwaitingListing, SetupAction::PostCommand { body: list_command_body() }),
        SetupStage::AwaitingListing => {
            if has_document(reply, node) {
                (SetupStage::Connected, SetupAction::Done)
            } else {
                (SetupStage::AwaitingCreation, SetupAction::Get { url: add_document_url(node) })
            }
        },
        SetupStage::AwaitingCreation => (SetupStage::Connected, SetupAction::Done),
        SetupStage::Connected => (SetupStage::Connected, SetupAction::Done),
    }
}

/// Whatever the replies, the setup first posts the listing command, then
/// asks for the creation of the document exactly when the listing does not
/// name it, and is connected after at most three steps; once connected it
/// stays so and sends nothing.
pub proof fn lemma_setup_completes(node: Seq<char>, r0: Seq<char>, listing: Seq<char>, r2: Seq<char>, r3: Seq<char>)
    ensures
        setup_next(SetupStage::Start, node, r0) == (SetupStage::AwaitingListing, SetupActionView::PostCommand(list_command_text())),
        text_contains(listing, document_name(node)) ==> setup_next(SetupStage::AwaitingListing, node, listing) == (SetupStage::Connected, SetupActionView::Done),
        !text_contains(listing, document_name(node)) ==> setup_next(SetupStage::AwaitingListing, node, listing) == (SetupStage::AwaitingCreation, SetupActionView::Get(add_document_url_text(node))),
        setup_next(SetupStage::AwaitingCreation, node, r2) == (SetupStage::Connected, SetupActionView::Done),
        setup_next(SetupStage::Connected, node, r3) == (SetupStage::Connected, SetupActionView::Done),
{
}

/// A listing that holds the document's name anywhere leads straight to the
/// connected stage, with no creation request.
pub proof fn lemma_listed_document_is_reused(node: Seq<char>, before: Seq<char>, after: Seq<char>)
    ensures
        setup_next(SetupStage::AwaitingListing, node, before + document_name(node) + after)
            == (SetupStage::Connected, SetupActionView::Done),
{
    let listing = before + document_name(node) + after;
    let name = document_name(node);
    let i = before.len() as int;
    assert(listing.subrange(i, i + name.len()) =~= name);
}

/// A node's document is named by the whole node text followed by `.xml`:
/// the name is four characters longer than the node, starts with the node
/// and ends with `.xml`, so different nodes get different documents.
pub proof fn lemma_document_name_is_node_dot_xml(node: Seq<char>, other: Seq<char>)
    ensures
        document_name(node) == node + ".xml"@,
        document_name(node).len() == node.len() + 4,
        document_name(node).subrange(0, node.len() as int) == node,
        document_name(node).subrange(node.len() as int, node.len() as int + 4) == seq!['.', 'x', 'm', 'l'],
        document_name(node) == document_name(other) ==> node == other,
{
    reveal_strlit(".xml");
    let d = document_name(node);
    assert(d.subrange(0, node.len() as int) =~= node);
    assert(d.subrange(node.len() as int, node.len() as int + 4) =~= seq!['.', 'x', 'm', 'l']);
    assert(".xml"@.len() == 4);
    assert(document_name(other).len() == other.len() + 4);
    if d == document_name(other) {
        assert(other.len() == node.len());
        assert(node =~= d.subrange(0, node.len() as int));
        assert(other =~= document_name(other).subrange(0, other.len() as int));
    }
}

/// The creation address and the insertion query name the node's document
/// by the whole node text followed by `.xml`, in the database `dht-db`,
/// and the query carries the record unchanged.
pub proof fn lemma_document_requests_name_whole_node(node: Seq<char>, record: Seq<char>)
    ensures
        add_document_url_text(node)
            == "http://127.0.0.1:8080/rest/dht-db?command=ADD+TO+"@ + node + ".xml+<sysinfo></sysinfo>"@,
        insert_query_text(node, record)
            == "<query>\n                    <text>\n                        insert node .//record as last into doc('dht-db/"@
            + node + ".xml')/sysinfo\n                    </text>\n                    <context>"@ + record
            + "</context>\n                 </query>"@,
{
    reveal_strlit(".xml");
    reveal_strlit("dht-db");
    reveal_strlit("http://127.0.0.1:8080/rest/");
    reveal_strlit("?command=ADD+TO+");
    reveal_strlit("+<sysinfo></sysinfo>");
    reveal_strlit("http://127.0.0.1:8080/rest/dht-db?command=ADD+TO+");
    reveal_strlit(".xml+<sysinfo></sysinfo>");
    reveal_strlit("<query>\n                    <text>\n                        insert node .//record as last into doc('");
    reveal_strlit("/");
    reveal_strlit("')/sysinfo\n                    </text>\n                    <context>");
    reveal_strlit("</context>\n                 </query>");
    reveal_strlit("<query>\n                    <text>\n                        insert node .//record as last into doc('dht-db/");
    reveal_strlit(".xml')/sysinfo\n                    </text>\n                    <context>");
    assert(add_document_url_text(node)
        =~= "http://127.0.0.1:8080/rest/dht-db?command=ADD+TO+"@ + node + ".xml+<sysinfo></sysinfo>"@);
    assert(insert_query_text(node, record)
        =~= "<query>\n                    <text>\n                        insert node .//record as last into doc('dht-db/"@
        + node + ".xml')/sysinfo\n                    </text>\n                    <context>"@ + record
        + "</context>\n                 </query>"@);
}

/// The listing is looked through for the whole node text followed by
/// `.xml`: the setup is connected right away exactly when that text occurs
/// in the listing, and otherwise asks to create the document.
pub proof fn lemma_listing_checked_for_node_dot_xml(node: Seq<char>, listing: Seq<char>)
    ensures
        (setup_next(SetupStage::AwaitingListing, node, listing).0 == SetupStage::Connected)
            <==> text_contains(listing, node + ".xml"@),
        !text_contains(listing, node + ".xml"@) ==> setup_next(SetupStage::AwaitingListing, node, listing).1
            == SetupActionView::Get("http://127.0.0.1:8080/rest/dht-db?command=ADD+TO+"@ + node + ".xml+<sysinfo></sysinfo>"@),
{
    lemma_document_requests_name_whole_node(node, Seq::empty());
}

/// The listing command is BaseX's `LIST` of the database `dht-db`.
pub proof fn lemma_list_command_names_database()
    ensures
        list_command_text() == "\n            <command>\n                <text>LIST dht-db</text>\n            </command>"@,
{
    reveal_strlit("dht-db");
    reveal_strlit("\n            <command>\n                <text>LIST ");
    reveal_strlit("</text>\n            </command>");
    reveal_strlit("\n            <command>\n                <text>LIST dht-db</text>\n            </command>");
    assert(list_command_text() =~= "\n            <command>\n                <text>LIST dht-db</text>\n            </command>"@);
}

} // verus!
