//! The document session manager.
//!
//! It owns one `DocumentState` per open URI, sequences open/change/close
//! events, and guards the publish step: every analysis pass carries the
//! revision it was started for, and its result is published only if no newer
//! revision has since been recorded for that URI — a stale result is
//! discarded, never merged. The manager's mathematical image is a map from
//! URI to document record.

use vstd::prelude::*;

use crate::definitions::{language_of_id, SupportedLanguageE};
use crate::diagnostics::Diagnostic;

verus! {

/// The state of one open document. Created on open at revision zero; the
/// text is replaced and the revision incremented on every change; dropped on
/// close.
pub struct DocumentState {
    pub uri: String,
    pub language: SupportedLanguageE,
    pub text: String,
    pub revision: u64,
    pub last_diagnostics: Vec<Diagnostic>,
}

/// The mathematical image of a `DocumentState`.
#[verifier::ext_equal]
pub struct DocRecord {
    pub language: SupportedLanguageE,
    pub text: Seq<char>,
    pub revision: nat,
    pub last_diagnostics: Seq<Diagnostic>,
}

spec fn record_of(d: DocumentState) -> DocRecord {
    DocRecord {
        language: d.language,
        text: d.text@,
        revision: d.revision as nat,
        last_diagnostics: d.last_diagnostics@,
    }
}

/// The map image of a uniquely-keyed document table.
spec fn docs_map(s: Seq<DocumentState>) -> Map<Seq<char>, DocRecord>
    decreases s.len(),
{
    if s.len() == 0 {
        Map::empty()
    } else {
        docs_map(s.drop_last()).insert(s.last().uri@, record_of(s.last()))
    }
}

/// No two entries share a URI.
spec fn uris_unique(s: Seq<DocumentState>) -> bool {
    forall|i: int, j: int|
        0 <= i < j < s.len() ==> (#[trigger] s[i]).uri@ != (#[trigger] s[j]).uri@
}

proof fn lemma_docs_map_miss(s: Seq<DocumentState>, uri: Seq<char>)
    requires
        forall|i: int| 0 <= i < s.len() ==> (#[trigger] s[i]).uri@ != uri,
    ensures
        !docs_map(s).contains_key(uri),
    decreases s.len(),
{
    if s.len() > 0 {
        assert(s.last().uri@ != uri);
        assert forall|i: int| 0 <= i < s.drop_last().len() implies (#[trigger] s.drop_last()[i]).uri@
            != uri by {
            assert(s.drop_last()[i] == s[i]);
        }
        lemma_docs_map_miss(s.drop_last(), uri);
    }
}

proof fn lemma_docs_map_hit(s: Seq<DocumentState>, i: int)
    requires
        uris_unique(s),
        0 <= i < s.len(),
    ensures
        docs_map(s).contains_key(s[i].uri@),
        docs_map(s)[s[i].uri@] == record_of(s[i]),
    decreases s.len(),
{
    if i == s.len() - 1 {
    } else {
        assert forall|a: int, b: int|
            0 <= a < b < s.drop_last().len() implies (#[trigger] s.drop_last()[a]).uri@ != (
        #[trigger] s.drop_last()[b]).uri@ by {
            assert(s.drop_last()[a] == s[a] && s.drop_last()[b] == s[b]);
        }
        lemma_docs_map_hit(s.drop_last(), i);
        assert(s[i].uri@ != s.last().uri@);
    }
}

proof fn lemma_docs_map_remove(s: Seq<DocumentState>, i: int)
    requires
        uris_unique(s),
        0 <= i < s.len(),
    ensures
        docs_map(s.remove(i)) == docs_map(s).remove(s[i].uri@),
        uris_unique(s.remove(i)),
        forall|k: int| 0 <= k < s.remove(i).len() ==> (#[trigger] s.remove(i)[k]).uri@ != s[i].uri@,
    decreases s.len(),
{
    let u = s[i].uri@;
    assert forall|k: int| 0 <= k < s.remove(i).len() implies (#[trigger] s.remove(i)[k]).uri@
        != u by {
        if k < i {
            assert(s.remove(i)[k] == s[k]);
        } else {
            assert(s.remove(i)[k] == s[k + 1]);
        }
    }
    assert forall|a: int, b: int|
        0 <= a < b < s.remove(i).len() implies (#[trigger] s.remove(i)[a]).uri@ != (
    #[trigger] s.remove(i)[b]).uri@ by {
        if a < i {
            assert(s.remove(i)[a] == s[a]);
        } else {
            assert(s.remove(i)[a] == s[a + 1]);
        }
        if b < i {
            assert(s.remove(i)[b] == s[b]);
        } else {
            assert(s.remove(i)[b] == s[b + 1]);
        }
    }
    if i == s.len() - 1 {
        assert(s.remove(i) =~= s.drop_last());
        assert forall|k: int| 0 <= k < s.drop_last().len() implies (#[trigger] s.drop_last()[k]).uri@
            != u by {
            assert(s.drop_last()[k] == s[k]);
        }
        lemma_docs_map_miss(s.drop_last(), u);
        assert(docs_map(s).remove(u) =~= docs_map(s.drop_last()));
    } else {
        assert forall|a: int, b: int|
            0 <= a < b < s.drop_last().len() implies (#[trigger] s.drop_last()[a]).uri@ != (
        #[trigger] s.drop_last()[b]).uri@ by {
            assert(s.drop_last()[a] == s[a] && s.drop_last()[b] == s[b]);
        }
        lemma_docs_map_remove(s.drop_last(), i);
        assert(s.remove(i).drop_last() =~= s.drop_last().remove(i));
        assert(s.remove(i).last() == s.last());
        assert(s.drop_last()[i] == s[i]);
        assert(u != s.last().uri@);
        assert(docs_map(s.remove(i)) =~= docs_map(s).remove(u));
    }
}

/// The session manager: the per-URI document table. Exactly one entry exists
/// per open URI; opening an already-open URI replaces its entry.
pub struct SessionManager {
    docs: Vec<DocumentState>,
}

impl View for SessionManager {
    type V = Map<Seq<char>, DocRecord>;

    closed spec fn view(&self) -> Map<Seq<char>, DocRecord> {
        docs_map(self.docs@)
    }
}

/// The record map after a change event replaced the text of an open document
/// and incremented its revision.
pub open spec fn after_change(
    m: Map<Seq<char>, DocRecord>,
    uri: Seq<char>,
    text: Seq<char>,
) -> Map<Seq<char>, DocRecord> {
    m.insert(
        uri,
        DocRecord {
            language: m[uri].language,
            text,
            revision: m[uri].revision + 1,
            last_diagnostics: m[uri].last_diagnostics,
        },
    )
}

/// Whether a publish carrying `revision` is accepted: the document is still
/// open and no newer revision has been recorded for it.
pub open spec fn publish_accepted(
    m: Map<Seq<char>, DocRecord>,
    uri: Seq<char>,
    revision: nat,
) -> bool {
    m.contains_key(uri) && m[uri].revision == revision
}

/// The record map after an accepted publish replaced the document's
/// diagnostics.
pub open spec fn after_publish(
    m: Map<Seq<char>, DocRecord>,
    uri: Seq<char>,
    diagnostics: Seq<Diagnostic>,
) -> Map<Seq<char>, DocRecord> {
    m.insert(
        uri,
        DocRecord {
            language: m[uri].language,
            text: m[uri].text,
            revision: m[uri].revision,
            last_diagnostics: diagnostics,
        },
    )
}

impl SessionManager {
    pub closed spec fn wf(&self) -> bool {
        uris_unique(self.docs@)
    }

    pub fn new() -> (r: SessionManager)
        ensures
            r.wf(),
            r@ == Map::<Seq<char>, DocRecord>::empty(),
    {
        SessionManager { docs: Vec::new() }
    }

    fn find_doc(&self, uri: &String) -> (r: Option<usize>)
        ensures
            match r {
                Some(i) => i < self.docs@.len() && self.docs@[i as int].uri@ == uri@,
                None => forall|i: int|
                    0 <= i < self.docs@.len() ==> (#[trigger] self.docs@[i]).uri@ != uri@,
            },
    {
        let total = self.docs.len();
        let mut i: usize = 0;
        while i < total
            invariant
                total == self.docs@.len(),
                0 <= i <= total,
                forall|k: int| 0 <= k < i ==> (#[trigger] self.docs@[k]).uri@ != uri@,
            decreases total - i,
        {
            if self.docs[i].uri == *uri {
                return Some(i);
            }
            i = i + 1;
        }
        None
    }

    /// Handles an open event. An unsupported language identifier creates no
    /// state at all: the document is left unanalyzed. A supported one creates
    /// the document at revision zero, replacing any state the URI already
    /// had, and returns that revision.
    pub fn open_document(&mut self, uri: String, language_id: &str, text: String) -> (r: Option<
        u64,
    >)
        requires
            old(self).wf(),
        ensures
            final(self).wf(),
            match language_of_id(language_id@) {
                None => final(self)@ == old(self)@ && r == None::<u64>,
                Some(language) => final(self)@ == old(self)@.insert(
                    uri@,
                    DocRecord {
                        language,
                        text: text@,
                        revision: 0,
                        last_diagnostics: Seq::empty(),
                    },
                ) && r == Some(0u64),
            },
    {
        let ghost old_map = self@;
        let language = match SupportedLanguageE::from_language_id(language_id) {
            Some(language) => language,
            None => {
                return None;
            },
        };
        match self.find_doc(&uri) {
            Some(i) => {
                proof {
                    lemma_docs_map_remove(self.docs@, i as int);
                }
                let _ = self.docs.remove(i);
            },
            None => {
                proof {
                    lemma_docs_map_miss(self.docs@, uri@);
                }
            },
        }
        let ghost trimmed = self.docs@;
        self.docs.push(
            DocumentState { uri, language, text, revision: 0, last_diagnostics: Vec::new() },
        );
        proof {
            assert(self.docs@.drop_last() =~= trimmed);
            assert(self@ =~= old_map.insert(
                self.docs@.last().uri@,
                record_of(self.docs@.last()),
            ));
            assert(record_of(self.docs@.last()) =~= DocRecord {
                language,
                text: self.docs@.last().text@,
                revision: 0,
                last_diagnostics: Seq::empty(),
            });
            assert forall|a: int, b: int|
                0 <= a < b < self.docs@.len() implies (#[trigger] self.docs@[a]).uri@ != (
            #[trigger] self.docs@[b]).uri@ by {
                if b < self.docs@.len() - 1 {
                    assert(self.docs@[a] == trimmed[a] && self.docs@[b] == trimmed[b]);
                } else {
                    assert(self.docs@[a] == trimmed[a]);
                }
            }
        }
        Some(0)
    }

    /// Handles a change event: replaces the text of the open document and
    /// increments its revision, returning the new revision. A change for a
    /// URI that is not open does nothing.
    pub fn change_document(&mut self, uri: &String, text: String) -> (r: Option<u64>)
        requires
            old(self).wf(),
            old(self)@.contains_key(uri@) ==> old(self)@[uri@].revision < u64::MAX,
        ensures
            final(self).wf(),
            old(self)@.contains_key(uri@) ==> final(self)@ == after_change(
                old(self)@,
                uri@,
                text@,
            ) && r == Some((old(self)@[uri@].revision + 1) as u64),
            !old(self)@.contains_key(uri@) ==> final(self)@ == old(self)@ && r == None::<u64>,
    {
        let ghost old_map = self@;
        match self.find_doc(uri) {
            Some(i) => {
                proof {
                    lemma_docs_map_hit(self.docs@, i as int);
                    lemma_docs_map_remove(self.docs@, i as int);
                }
                let mut doc = self.docs.remove(i);
                let ghost trimmed = self.docs@;
                doc.text = text;
                doc.revision = doc.revision + 1;
                let new_revision = doc.revision;
                self.docs.push(doc);
                proof {
                    assert(self.docs@.drop_last() =~= trimmed);
                    assert(self@ =~= after_change(old_map, uri@, text@));
                    assert forall|a: int, b: int|
                        0 <= a < b < self.docs@.len() implies (#[trigger] self.docs@[a]).uri@ != (
                    #[trigger] self.docs@[b]).uri@ by {
                        if b < self.docs@.len() - 1 {
                            assert(self.docs@[a] == trimmed[a] && self.docs@[b] == trimmed[b]);
                        } else {
                            assert(self.docs@[a] == trimmed[a]);
                        }
                    }
                }
                Some(new_revision)
            },
            None => {
                proof {
                    lemma_docs_map_miss(self.docs@, uri@);
                }
                None
            },
        }
    }

    /// Handles a close event: drops the document's state, and reports whether
    /// there was any.
    pub fn close_document(&mut self, uri: &String) -> (r: bool)
        requires
            old(self).wf(),
        ensures
            final(self).wf(),
            r == old(self)@.contains_key(uri@),
            final(self)@ == old(self)@.remove(uri@),
    {
        match self.find_doc(uri) {
            Some(i) => {
                proof {
                    lemma_docs_map_hit(self.docs@, i as int);
                    lemma_docs_map_remove(self.docs@, i as int);
                }
                let _ = self.docs.remove(i);
                true
            },
            None => {
                proof {
                    lemma_docs_map_miss(self.docs@, uri@);
                    assert(self@.remove(uri@) =~= self@);
                }
                false
            },
        }
    }

    /// The revision the document currently stands at, if it is open.
    pub fn revision_of(&self, uri: &String) -> (r: Option<u64>)
        requires
            self.wf(),
        ensures
            match r {
                Some(revision) => self@.contains_key(uri@) && revision as nat
                    == self@[uri@].revision,
                None => !self@.contains_key(uri@),
            },
    {
        match self.find_doc(uri) {
            Some(i) => {
                proof {
                    lemma_docs_map_hit(self.docs@, i as int);
                }
                Some(self.docs[i].revision)
            },
            None => {
                proof {
                    lemma_docs_map_miss(self.docs@, uri@);
                }
                None
            },
        }
    }

    /// The diagnostics most recently published for the document, if it is
    /// open.
    pub fn diagnostics_of(&self, uri: &String) -> (r: Option<&Vec<Diagnostic>>)
        requires
            self.wf(),
        ensures
            match r {
                Some(d) => self@.contains_key(uri@) && d@ == self@[uri@].last_diagnostics,
                None => !self@.contains_key(uri@),
            },
    {
        match self.find_doc(uri) {
            Some(i) => {
                proof {
                    lemma_docs_map_hit(self.docs@, i as int);
                }
                Some(&self.docs[i].last_diagnostics)
            },
            None => {
                proof {
                    lemma_docs_map_miss(self.docs@, uri@);
                }
                None
            },
        }
    }

    /// The publish step of one analysis pass. The pass carries the revision
    /// it analyzed; its diagnostics atomically replace the document's set
    /// only if that is still the current revision. A stale pass — the
    /// document was changed again, or closed, in the meantime — is discarded
    /// whole, and the state is left untouched.
    pub fn complete_analysis(
        &mut self,
        uri: &String,
        revision: u64,
        diagnostics: Vec<Diagnostic>,
    ) -> (published: bool)
        requires
            old(self).wf(),
        ensures
            final(self).wf(),
            published == publish_accepted(old(self)@, uri@, revision as nat),
            published ==> final(self)@ == after_publish(old(self)@, uri@, diagnostics@),
            !published ==> final(self)@ == old(self)@,
    {
        let ghost old_map = self@;
        match self.find_doc(uri) {
            Some(i) => {
                proof {
                    lemma_docs_map_hit(self.docs@, i as int);
                }
                if self.docs[i].revision == revision {
                    proof {
                        lemma_docs_map_remove(self.docs@, i as int);
                    }
                    let mut doc = self.docs.remove(i);
                    let ghost trimmed = self.docs@;
                    doc.last_diagnostics = diagnostics;
                    self.docs.push(doc);
                    proof {
                        assert(self.docs@.drop_last() =~= trimmed);
                        assert(self@ =~= after_publish(old_map, uri@, diagnostics@));
                        assert forall|a: int, b: int|
                            0 <= a < b < self.docs@.len() implies (
                        #[trigger] self.docs@[a]).uri@ != (#[trigger] self.docs@[b]).uri@ by {
                            if b < self.docs@.len() - 1 {
                                assert(self.docs@[a] == trimmed[a] && self.docs@[b] == trimmed[b]);
                            } else {
                                assert(self.docs@[a] == trimmed[a]);
                            }
                        }
                    }
                    true
                } else {
                    false
                }
            },
            None => {
                proof {
                    lemma_docs_map_miss(self.docs@, uri@);
                }
                false
            },
        }
    }
}

/// Supersede-on-arrival. When two change events for the same URI arrive in
/// order — say revisions `n` and `n + 1` — before either analysis pass
/// publishes, the publish step accepts only the newer pass: a publish
/// carrying `n` is rejected against the state that already records `n + 1`,
/// and `complete_analysis` then leaves the previous diagnostics untouched.
pub proof fn lemma_stale_publish_rejected(
    m: Map<Seq<char>, DocRecord>,
    uri: Seq<char>,
    first_text: Seq<char>,
    second_text: Seq<char>,
)
    requires
        m.contains_key(uri),
    ensures
        ({
            let n = m[uri].revision + 1;
            let after_both = after_change(after_change(m, uri, first_text), uri, second_text);
            !publish_accepted(after_both, uri, n) && publish_accepted(after_both, uri, n + 1)
        }),
{
}

} // verus!
