//! What the language server keeps between messages, and what it decides on
//! each: which documents are open, which rules apply, and which font
//! assignments to send for a document.
use vstd::prelude::*;

use crate::config::{config_rules, ConfigView, PolyfontConfig};
use crate::engine::{stable_sort, ScopeMatchEngine};
use crate::font::FontRuleView;
use crate::lsp::{
    build_assignment_entries, entries_for, naive_tokens, tokenize_with_language, EntryView,
    FontAssignmentNotification,
};
use crate::name_map::NameMap;
use crate::text::{lines_s, owned};
use crate::token::{TokenInfo, TokenView};

verus! {

/// An open document, the language the editor reported for it, and its
/// tokens.
pub struct DocumentState {
    pub version: i32,
    pub text: String,
    pub language_id: String,
    pub cached_tokens: Vec<TokenInfo>,
}

/// The mathematical content of a [`DocumentState`].
pub struct DocumentView {
    pub version: i32,
    pub text: Seq<char>,
    pub language_id: Seq<char>,
    pub tokens: Seq<TokenView>,
}

impl View for DocumentState {
    type V = DocumentView;

    open spec fn view(&self) -> DocumentView {
        DocumentView {
            version: self.version,
            text: self.text@,
            language_id: self.language_id@,
            tokens: self.cached_tokens.deep_view(),
        }
    }
}

/// The tokens the server reads in a document's text.
pub open spec fn document_tokens(text: Seq<char>) -> Seq<TokenView> {
    naive_tokens(lines_s(text))
}

/// A document in the language `language_id` as it is kept once opened or
/// changed to `text`.
pub open spec fn document_of(version: i32, text: Seq<char>, language_id: Seq<char>) -> DocumentView {
    DocumentView { version, text, language_id, tokens: document_tokens(text) }
}

/// The mathematical content of a [`ServerState`].
pub struct ServerView {
    /// The rules in force, most specific first, once a configuration loaded.
    pub rules: Option<Seq<FontRuleView>>,
    /// The configuration they came from.
    pub config: Option<ConfigView>,
    /// The workspace folder.
    pub root: Option<Seq<char>>,
    /// The open documents by URI.
    pub documents: Map<Seq<char>, DocumentView>,
}

/// The assignments to send for the document `uri`, from its kept tokens
/// (or from its text when none are kept); `None` when there are no rules,
/// no such document, or nothing assigned.
pub open spec fn published_entries(st: ServerView, uri: Seq<char>) -> Option<Seq<EntryView>> {
    match st.rules {
        None => None,
        Some(rules) => if !st.documents.dom().contains(uri) {
            None
        } else {
            let doc = st.documents[uri];
            let toks = if doc.tokens.len() == 0 {
                document_tokens(doc.text)
            } else {
                doc.tokens
            };
            let es = entries_for(rules, toks);
            if es.len() == 0 {
                None
            } else {
                Some(es)
            }
        },
    }
}

/// The assignments answered on request for the document `uri`, read afresh
/// from its text; `None` when there are no rules, no such document, or
/// nothing assigned.
pub open spec fn requested_entries(st: ServerView, uri: Seq<char>) -> Option<Seq<EntryView>> {
    match st.rules {
        None => None,
        Some(rules) => if !st.documents.dom().contains(uri) {
            None
        } else {
            let es = entries_for(rules, document_tokens(st.documents[uri].text));
            if es.len() == 0 {
                None
            } else {
                Some(es)
            }
        },
    }
}

/// Whether `r` is the notification for `uri` carrying `entries`, or none.
pub open spec fn notification_for(
    r: Option<FontAssignmentNotification>,
    uri: Seq<char>,
    entries: Option<Seq<EntryView>>,
) -> bool {
    match entries {
        Some(es) => r matches Some(n) && n.uri@ == uri && n.assignments.deep_view() == es,
        None => r is None,
    }
}

/// The server's state: the rules from the workspace configuration, and the
/// open documents.
pub struct ServerState {
    engine: Option<ScopeMatchEngine>,
    config: Option<PolyfontConfig>,
    workspace_root: Option<String>,
    documents: NameMap<DocumentState>,
}

impl View for ServerState {
    type V = ServerView;

    closed spec fn view(&self) -> ServerView {
        ServerView {
            rules: match self.engine {
                Some(e) => Some(e@),
                None => None,
            },
            config: match self.config {
                Some(c) => Some(c@),
                None => None,
            },
            root: match self.workspace_root {
                Some(r) => Some(r@),
                None => None,
            },
            documents: self.documents@.map_values(|d: DocumentState| d@),
        }
    }
}

impl ServerState {
    /// No configuration, no workspace, no documents.
    pub fn new() -> (r: Self)
        ensures
            r@.rules is None,
            r@.config is None,
            r@.root is None,
            r@.documents == Map::<Seq<char>, DocumentView>::empty(),
    {
        let r = ServerState { engine: None, config: None, workspace_root: None, documents: NameMap::new() };
        assert(r@.documents =~= Map::<Seq<char>, DocumentView>::empty());
        r
    }

    /// Records the workspace folder.
    pub fn set_workspace_root(&mut self, root: String)
        ensures
            final(self)@ == (ServerView { root: Some(root@), ..old(self)@ }),
    {
        self.workspace_root = Some(root);
    }

    /// The workspace folder, if known.
    pub fn workspace_root(&self) -> (r: Option<String>)
        ensures
            r matches Some(s) ==> self@.root == Some(s@),
            r is None ==> self@.root is None,
    {
        match &self.workspace_root {
            Some(s) => Some(owned(s.as_str())),
            None => None,
        }
    }

    /// Puts a configuration loaded from `root` in force: its rules, most
    /// specific first, decide the fonts from now on.
    pub fn apply_config(&mut self, config: PolyfontConfig, root: String)
        ensures
            final(self)@ == (ServerView {
                rules: Some(stable_sort(config_rules(config@))),
                config: Some(config@),
                root: Some(root@),
                documents: old(self)@.documents,
            }),
    {
        let rules = config.to_rules();
        let engine = ScopeMatchEngine::from_rules(rules);
        self.config = Some(config);
        self.engine = Some(engine);
        self.workspace_root = Some(root);
    }

    /// Keeps the document `uri`, in the language the editor reported, as
    /// opened with `text`, tokenized.
    pub fn open_document(&mut self, uri: &str, language_id: &str, version: i32, text: String)
        ensures
            final(self)@ == (ServerView {
                documents: old(self)@.documents.insert(uri@, document_of(version, text@, language_id@)),
                ..old(self)@
            }),
    {
        let tokens = tokenize_with_language(text.as_str(), language_id);
        let doc = DocumentState { version, text, language_id: owned(language_id), cached_tokens: tokens };
        let ghost before = self.documents@;
        self.documents.insert(uri, doc);
        proof {
            assert(doc@ == document_of(version, text@, language_id@));
            assert(self.documents@.map_values(|d: DocumentState| d@) =~= before.map_values(
                |d: DocumentState| d@,
            ).insert(uri@, document_of(version, text@, language_id@)));
        }
    }

    /// Applies a full-text change to the document `uri`: with new text, an
    /// open document takes it, its version and its tokens, and keeps its
    /// language; otherwise nothing changes.
    pub fn change_document(&mut self, uri: &str, version: i32, text: Option<String>)
        ensures
            (text matches Some(t) && old(self)@.documents.dom().contains(uri@)) ==> final(self)@ == (
            ServerView {
                documents: old(self)@.documents.insert(
                    uri@,
                    document_of(version, text->0@, old(self)@.documents[uri@].language_id),
                ),
                ..old(self)@
            }),
            !(text matches Some(t) && old(self)@.documents.dom().contains(uri@)) ==> final(self)@ == old(
                self,
            )@,
    {
        match text {
            Some(t) => {
                let language = match self.documents.get(uri) {
                    Some(doc) => owned(doc.language_id.as_str()),
                    None => {
                        assert(!old(self)@.documents.dom().contains(uri@));
                        return;
                    },
                };
                assert(old(self)@.documents.dom().contains(uri@));
                assert(language@ == old(self)@.documents[uri@].language_id);
                self.open_document(uri, language.as_str(), version, t);
            },
            None => {},
        }
    }

    /// Forgets the document `uri`.
    pub fn close_document(&mut self, uri: &str)
        ensures
            final(self)@ == (ServerView { documents: old(self)@.documents.remove(uri@), ..old(self)@ }),
    {
        let ghost before = self.documents@;
        self.documents.remove(uri);
        assert(self.documents@.map_values(|d: DocumentState| d@) =~= before.map_values(
            |d: DocumentState| d@,
        ).remove(uri@));
    }

    /// Drops the rules, the configuration and every document; the
    /// workspace folder is kept.
    pub fn shutdown(&mut self)
        ensures
            final(self)@ == (ServerView {
                rules: None,
                config: None,
                root: old(self)@.root,
                documents: Map::<Seq<char>, DocumentView>::empty(),
            }),
    {
        self.engine = None;
        self.config = None;
        self.documents.clear();
        assert(self.documents@.map_values(|d: DocumentState| d@) =~= Map::<Seq<char>, DocumentView>::empty());
    }

    /// The URIs of the open documents, each once.
    pub fn document_uris(&self) -> (r: Vec<String>)
        ensures
            r.deep_view().no_duplicates(),
            forall|k: Seq<char>| r.deep_view().contains(k) <==> self@.documents.dom().contains(k),
    {
        let r = self.documents.keys();
        assert(self@.documents.dom() =~= self.documents@.dom());
        r
    }

    /// The notification to send for the document `uri` after it changed or
    /// the rules did: its assignments from the kept tokens; `None` when
    /// there is nothing to send.
    pub fn assignments_to_publish(&self, uri: &str) -> (r: Option<FontAssignmentNotification>)
        ensures
            notification_for(r, uri@, published_entries(self@, uri@)),
    {
        let engine = match &self.engine {
            Some(e) => e,
            None => return None,
        };
        let doc = match self.documents.get(uri) {
            Some(d) => d,
            None => return None,
        };
        assert(self@.documents[uri@] == doc@);
        let entries = if doc.cached_tokens.len() == 0 {
            let tokens = tokenize_with_language(doc.text.as_str(), doc.language_id.as_str());
            assert(tokens@.map_values(|t: TokenInfo| t@) =~= tokens.deep_view());
            build_assignment_entries(engine, tokens.as_slice())
        } else {
            assert(doc.cached_tokens@.map_values(|t: TokenInfo| t@) =~= doc.cached_tokens.deep_view());
            build_assignment_entries(engine, doc.cached_tokens.as_slice())
        };
        if entries.len() == 0 {
            None
        } else {
            Some(FontAssignmentNotification { uri: owned(uri), assignments: entries })
        }
    }

    /// The answer to a request for the assignments of the document `uri`,
    /// read afresh from its text; `None` when there is nothing to report.
    pub fn requested_assignments(&self, uri: &str) -> (r: Option<FontAssignmentNotification>)
        ensures
            notification_for(r, uri@, requested_entries(self@, uri@)),
    {
        let engine = match &self.engine {
            Some(e) => e,
            None => return None,
        };
        let doc = match self.documents.get(uri) {
            Some(d) => d,
            None => return None,
        };
        assert(self@.documents[uri@] == doc@);
        let tokens = tokenize_with_language(doc.text.as_str(), doc.language_id.as_str());
        assert(tokens@.map_values(|t: TokenInfo| t@) =~= tokens.deep_view());
        let entries = build_assignment_entries(engine, tokens.as_slice());
        if entries.len() == 0 {
            None
        } else {
            Some(FontAssignmentNotification { uri: owned(uri), assignments: entries })
        }
    }
}

/// Once a document is opened or changed, the assignments published for it
/// are those a request for it answers; once it is closed, none are
/// published or answered.
pub proof fn lemma_published_after_open_or_close(
    st: ServerView,
    uri: Seq<char>,
    version: i32,
    text: Seq<char>,
    language_id: Seq<char>,
)
    ensures
        ({
            let opened = ServerView {
                documents: st.documents.insert(uri, document_of(version, text, language_id)),
                ..st
            };
            published_entries(opened, uri) == requested_entries(opened, uri)
        }),
        ({
            let closed = ServerView { documents: st.documents.remove(uri), ..st };
            published_entries(closed, uri) is None && requested_entries(closed, uri) is None
        }),
{
}

} // verus!
