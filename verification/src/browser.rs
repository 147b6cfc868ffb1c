//! State behind the browser pane: per-window navigation state, the shared
//! console log with its retention cap, and the decoding step of saving a
//! screenshot. The windows themselves, navigation and file writing are
//! platform work outside the library.

use vstd::prelude::*;
use vstd::string::StringExecFns;

use crate::text::str_eq;

verus! {

/// Navigation state of one embedded browser window.
#[derive(Debug, Clone)]
pub struct BrowserState {
    pub url: String,
    pub title: String,
    pub can_go_back: bool,
    pub can_go_forward: bool,
    pub is_loading: bool,
}

impl BrowserState {
    /// An equal copy of this state.
    pub fn duplicate(&self) -> (r: BrowserState)
        ensures
            r == *self,
    {
        BrowserState {
            url: self.url.clone(),
            title: self.title.clone(),
            can_go_back: self.can_go_back,
            can_go_forward: self.can_go_forward,
            is_loading: self.is_loading,
        }
    }
}

/// One console message reported by a browser window.
#[derive(Debug, Clone)]
pub struct ConsoleMessage {
    pub level: String,
    pub message: String,
    pub source: String,
    pub line: u32,
    pub timestamp: u64,
}

impl ConsoleMessage {
    /// An equal copy of this message.
    pub fn duplicate(&self) -> (r: ConsoleMessage)
        ensures
            r == *self,
    {
        ConsoleMessage {
            level: self.level.clone(),
            message: self.message.clone(),
            source: self.source.clone(),
            line: self.line,
            timestamp: self.timestamp,
        }
    }
}

/// One window's entry in the manager: the window id and its state.
pub struct BrowserEntry {
    pub window_id: String,
    pub state: BrowserState,
}

/// The number of console messages kept; older ones are discarded first.
pub const CONSOLE_LOG_CAP: usize = 1000;

/// Keeps the navigation state of every browser window and the console
/// messages they report.
pub struct BrowserManager {
    pub states: Vec<BrowserEntry>,
    pub console_logs: Vec<ConsoleMessage>,
}

/// There is an entry for `id` among `s`.
pub open spec fn entries_contain(s: Seq<BrowserEntry>, id: Seq<char>) -> bool {
    exists|i: int| 0 <= i < s.len() && (#[trigger] s[i]).window_id@ == id
}

/// The position of the entry for `id` (unique when ids are distinct).
pub open spec fn index_of_entry(s: Seq<BrowserEntry>, id: Seq<char>) -> int {
    choose|i: int| 0 <= i < s.len() && (#[trigger] s[i]).window_id@ == id
}

/// The state stored for `id`, if any.
pub open spec fn state_of(s: Seq<BrowserEntry>, id: Seq<char>) -> Option<BrowserState> {
    if entries_contain(s, id) {
        Some(s[index_of_entry(s, id)].state)
    } else {
        None
    }
}

impl BrowserManager {
    /// Well-formedness: one entry per window id, and the console log never
    /// exceeds its cap.
    pub open spec fn wf(&self) -> bool {
        &&& forall|i: int, j: int|
            0 <= i < j < self.states@.len() ==> (#[trigger] self.states@[i]).window_id@ != (
            #[trigger] self.states@[j]).window_id@
        &&& self.console_logs@.len() <= CONSOLE_LOG_CAP
    }

    pub fn new() -> (r: Self)
        ensures
            r.wf(),
            r.states@.len() == 0,
            r.console_logs@.len() == 0,
    {
        BrowserManager { states: Vec::new(), console_logs: Vec::new() }
    }

    /// The position of the entry for `window_id`, if any.
    fn find_entry(&self, window_id: &str) -> (r: Option<usize>)
        ensures
            match r {
                Some(i) => i < self.states@.len() && self.states@[i as int].window_id@
                    == window_id@,
                None => !entries_contain(self.states@, window_id@),
            },
    {
        let n = self.states.len();
        let mut i: usize = 0;
        while i < n
            invariant
                n == self.states@.len(),
                i <= n,
                forall|j: int| 0 <= j < i ==> (#[trigger] self.states@[j]).window_id@ != window_id@,
            decreases n - i,
        {
            if str_eq(self.states[i].window_id.as_str(), window_id) {
                return Some(i);
            }
            i += 1;
        }
        None
    }

    /// Stores `state` for `window_id`, replacing any earlier state for the
    /// same window and leaving every other window's state unchanged.
    pub fn update_browser_state(&mut self, window_id: String, state: BrowserState)
        requires
            old(self).wf(),
        ensures
            final(self).wf(),
            state_of(final(self).states@, window_id@) == Some(state),
            forall|id: Seq<char>|
                id != window_id@ ==> #[trigger] state_of(final(self).states@, id) == state_of(
                    old(self).states@,
                    id,
                ),
            final(self).console_logs@ == old(self).console_logs@,
    {
        let entry = BrowserEntry { window_id, state };
        let ghost e = entry;
        let ghost eid = entry.window_id@;
        let ghost pre = self.states@;
        match self.find_entry(entry.window_id.as_str()) {
            Some(i) => {
                self.states.remove(i);
                self.states.insert(i, entry);
                proof {
                    let post = self.states@;
                    assert(post =~= pre.update(i as int, e));
                    assert(forall|k: int|
                        0 <= k < post.len() ==> (#[trigger] post[k]).window_id@
                            == pre[k].window_id@);
                    lemma_state_of_at(post, i as int);
                    assert forall|id: Seq<char>| id != eid implies #[trigger] state_of(post, id)
                        == state_of(pre, id) by {
                        if entries_contain(pre, id) {
                            let k = index_of_entry(pre, id);
                            assert(0 <= k < pre.len() && pre[k].window_id@ == id);
                            assert(k != i as int);
                            lemma_state_of_at(pre, k);
                            lemma_state_of_at(post, k);
                        } else {
                            if entries_contain(post, id) {
                                let k2 = index_of_entry(post, id);
                                assert(0 <= k2 < post.len() && post[k2].window_id@ == id);
                                assert(pre[k2].window_id@ == id);
                                assert(false);
                            }
                        }
                    }
                }
            },
            None => {
                self.states.push(entry);
                proof {
                    let post = self.states@;
                    assert(post =~= pre.push(e));
                    assert(forall|k: int| 0 <= k < pre.len() ==> #[trigger] post[k] == pre[k]);
                    lemma_state_of_at(post, pre.len() as int);
                    assert forall|id: Seq<char>| id != eid implies #[trigger] state_of(post, id)
                        == state_of(pre, id) by {
                        if entries_contain(pre, id) {
                            let k = index_of_entry(pre, id);
                            assert(0 <= k < pre.len() && pre[k].window_id@ == id);
                            lemma_state_of_at(pre, k);
                            lemma_state_of_at(post, k);
                        } else {
                            if entries_contain(post, id) {
                                let k2 = index_of_entry(post, id);
                                assert(0 <= k2 < post.len() && post[k2].window_id@ == id);
                                assert(k2 < pre.len());
                                assert(pre[k2].window_id@ == id);
                                assert(false);
                            }
                        }
                    }
                }
            },
        }
    }

    /// Creates the default state for a new window — the local development
    /// URL, a plain title, no history, not loading — stores it under
    /// `window_id`, and returns it.
    pub fn create_browser_state(&mut self, window_id: String) -> (r: BrowserState)
        requires
            old(self).wf(),
        ensures
            final(self).wf(),
            r.url@ == "http://localhost:3000"@,
            r.title@ == "Browser"@,
            !r.can_go_back,
            !r.can_go_forward,
            !r.is_loading,
            state_of(final(self).states@, window_id@) == Some(r),
            forall|id: Seq<char>|
                id != window_id@ ==> #[trigger] state_of(final(self).states@, id) == state_of(
                    old(self).states@,
                    id,
                ),
            final(self).console_logs@ == old(self).console_logs@,
    {
        let state = BrowserState {
            url: "http://localhost:3000".to_owned(),
            title: "Browser".to_owned(),
            can_go_back: false,
            can_go_forward: false,
            is_loading: false,
        };
        let copy = state.duplicate();
        self.update_browser_state(window_id, state);
        copy
    }

    /// The state stored for `window_id`, if that window is known.
    pub fn get_browser_state(&self, window_id: &str) -> (r: Option<BrowserState>)
        requires
            self.wf(),
        ensures
            r == state_of(self.states@, window_id@),
    {
        match self.find_entry(window_id) {
            Some(i) => {
                proof {
                    let j = index_of_entry(self.states@, window_id@);
                    assert(0 <= j < self.states@.len() && self.states@[j].window_id@
                        == window_id@);
                    assert(j == i as int);
                }
                Some(self.states[i].state.duplicate())
            },
            None => None,
        }
    }

    /// Appends a console message; when the log would exceed its cap, the
    /// oldest message is discarded.
    pub fn add_console_log(&mut self, message: ConsoleMessage)
        requires
            old(self).wf(),
        ensures
            final(self).wf(),
            final(self).console_logs@ == if old(self).console_logs@.len() < CONSOLE_LOG_CAP {
                old(self).console_logs@.push(message)
            } else {
                old(self).console_logs@.push(message).drop_first()
            },
            final(self).states@ == old(self).states@,
    {
        self.console_logs.push(message);
        if self.console_logs.len() > CONSOLE_LOG_CAP {
            self.console_logs.remove(0);
            proof {
                assert(self.console_logs@ =~= old(self).console_logs@.push(
                    message,
                ).drop_first());
            }
        }
    }

    /// All console messages, oldest first.
    pub fn get_console_logs(&self) -> (r: Vec<ConsoleMessage>)
        ensures
            r@ == self.console_logs@,
    {
        let n = self.console_logs.len();
        let mut r: Vec<ConsoleMessage> = Vec::new();
        let mut i: usize = 0;
        while i < n
            invariant
                n == self.console_logs@.len(),
                i <= n,
                r@.len() == i,
                forall|j: int| 0 <= j < i ==> #[trigger] r@[j] == self.console_logs@[j],
            decreases n - i,
        {
            r.push(self.console_logs[i].duplicate());
            i += 1;
        }
        proof {
            assert(r@ =~= self.console_logs@);
        }
        r
    }

    /// Empties the console log.
    pub fn clear_console_logs(&mut self)
        requires
            old(self).wf(),
        ensures
            final(self).wf(),
            final(self).console_logs@.len() == 0,
            final(self).states@ == old(self).states@,
    {
        self.console_logs = Vec::new();
    }
}

/// In a table with distinct window ids, the entry at any position is what
/// its own id looks up to.
proof fn lemma_state_of_at(s: Seq<BrowserEntry>, i: int)
    requires
        forall|a: int, b: int|
            0 <= a < b < s.len() ==> (#[trigger] s[a]).window_id@ != (
            #[trigger] s[b]).window_id@,
        0 <= i < s.len(),
    ensures
        state_of(s, s[i].window_id@) == Some(s[i].state),
{
    let id = s[i].window_id@;
    assert(entries_contain(s, id));
    let k = index_of_entry(s, id);
    assert(0 <= k < s.len() && s[k].window_id@ == id);
    assert(k == i);
}

/// Whether (and to what) a piece of base64 text decodes under the standard
/// alphabet; a function of the text alone.
pub uninterp spec fn base64_decoding(text: Seq<char>) -> Option<Seq<u8>>;

/// Relies on base64's `Engine::decode` with the `STANDARD` engine: the
/// outcome is a function of the input text alone — `None` exactly on text
/// that is not valid base64.
#[verifier::external_body]
fn decode_base64(data: &str) -> (r: Option<Vec<u8>>)
    ensures
        (r is Some) == (base64_decoding(data@) is Some),
        r matches Some(v) ==> Some(v@) == base64_decoding(data@),
{
    base64::Engine::decode(&base64::engine::general_purpose::STANDARD, data).ok()
}

/// The decoding step of saving a screenshot: the base64 payload handed
/// over by the front end, decoded to the bytes that will be written to
/// disk. Choosing the destination and writing the file happen outside the
/// library.
pub fn screenshot_bytes(data: &str) -> (r: Result<Vec<u8>, String>)
    ensures
        (r is Ok) == (base64_decoding(data@) is Some),
        r matches Ok(v) ==> Some(v@) == base64_decoding(data@),
        r matches Err(m) ==> m@ == "Failed to decode base64"@,
{
    match decode_base64(data) {
        Some(v) => Ok(v),
        None => Err("Failed to decode base64".to_owned()),
    }
}

} // verus!
