//! The state of the chat's terminal interface: the line being typed, the
//! messages sent, and the tabs.

use vstd::prelude::*;

use crate::runtime::NetworkInfo;

verus! {

/// Appends a character to a string.
///
/// Calls `String::push`, which, as std documents, appends the character to
/// the end of the string.
#[verifier::external_body]
fn string_push(s: &mut String, c: char)
    ensures
        final(s)@ == old(s)@.push(c),
{
    s.push(c);
}

/// Removes the last character of a string.
///
/// Calls `String::pop`, which, as std documents, removes the last character
/// and returns it, or returns `None` when the string is empty.
#[verifier::external_body]
fn string_pop(s: &mut String) -> (r: Option<char>)
    ensures
        old(s)@.len() == 0 ==> r is None && final(s)@ == old(s)@,
        old(s)@.len() > 0 ==> r == Some(old(s)@.last()) && final(s)@ == old(s)@.drop_last(),
{
    s.pop()
}

/// A message sent from the interface.
pub struct Message {
    pub timestamp_secs: u64,
    pub contents: String,
}

/// The interface's data: the line being typed and the messages sent.
pub struct Data {
    input: String,
    messages: Vec<Message>,
}

impl Data {
    /// The line being typed.
    pub closed spec fn input(&self) -> Seq<char> {
        self.input@
    }

    /// The messages sent, oldest first, each by its time and text.
    pub closed spec fn messages(&self) -> Seq<(u64, Seq<char>)> {
        self.messages@.map_values(|m: Message| (m.timestamp_secs, m.contents@))
    }

    /// Nothing typed and nothing sent.
    pub fn new() -> (r: Data)
        ensures
            r.input().len() == 0,
            r.messages().len() == 0,
    {
        Data { input: String::new(), messages: Vec::new() }
    }

    /// A character typed.
    pub fn input_push(&mut self, v: char)
        ensures
            final(self).input() == old(self).input().push(v),
            final(self).messages() == old(self).messages(),
    {
        string_push(&mut self.input, v);
    }

    /// The last character typed is erased, if there is one.
    pub fn input_backspace(&mut self)
        ensures
            final(self).input() == if old(self).input().len() > 0 {
                old(self).input().drop_last()
            } else {
                old(self).input()
            },
            final(self).messages() == old(self).messages(),
    {
        string_pop(&mut self.input);
    }

    /// The line typed is sent at `timestamp_secs`: it joins the messages,
    /// the line is cleared, and its text is returned.
    pub fn input_send(&mut self, timestamp_secs: u64) -> (r: String)
        ensures
            r@ == old(self).input(),
            final(self).input().len() == 0,
            final(self).messages() == old(self).messages().push((timestamp_secs, old(self).input())),
    {
        let msg = Message { timestamp_secs, contents: self.input.clone() };
        let ghost before = self.messages@;
        self.messages.push(msg);
        proof {
            assert(self.messages@.map_values(|m: Message| (m.timestamp_secs, m.contents@))
                =~= before.map_values(|m: Message| (m.timestamp_secs, m.contents@)).push(
                (timestamp_secs, old(self).input@),
            ));
        }
        let ret = self.input.clone();
        self.input = String::new();
        ret
    }
}

/// The character of the decimal digit `d`.
pub open spec fn digit_char(d: nat) -> char {
    (48 + d) as char
}

/// The decimal text of `n`, without leading zeros.
pub open spec fn decimal(n: nat) -> Seq<char>
    decreases n,
{
    if n < 10 {
        seq![digit_char(n)]
    } else {
        decimal(n / 10).push(digit_char(n % 10))
    }
}

/// The line shown for a message: its time in seconds between brackets, a
/// colon, and its text.
pub open spec fn message_line(timestamp_secs: u64, contents: Seq<char>) -> Seq<char> {
    seq!['['] + decimal(timestamp_secs as nat) + seq![']', ':', ' '] + contents
}

/// Appends the decimal text of `n`.
fn push_decimal(s: &mut String, n: u64)
    ensures
        final(s)@ == old(s)@ + decimal(n as nat),
    decreases n,
{
    let ghost start = s@;
    if n >= 10 {
        push_decimal(s, n / 10);
    }
    let d: u8 = (n % 10) as u8;
    let c: char = (48u8 + d) as char;
    assert(c == digit_char((n % 10) as nat));
    let ghost mid = s@;
    string_push(s, c);
    proof {
        if n >= 10 {
            assert(mid == start + decimal((n / 10) as nat));
            assert(s@ =~= start + decimal((n / 10) as nat).push(c));
        } else {
            assert(s@ =~= start + seq![c]);
        }
    }
}

/// Appends the characters of `t`.
fn push_chars(s: &mut String, t: &str)
    ensures
        final(s)@ == old(s)@ + t@,
{
    let ghost start = s@;
    let n = t.unicode_len();
    let mut i: usize = 0;
    while i < n
        invariant
            n == t@.len(),
            i <= n,
            s@ == start + t@.take(i as int),
        decreases n - i,
    {
        let c = t.get_char(i);
        string_push(s, c);
        assert(t@.take(i as int + 1) == t@.take(i as int).push(c));
        assert(s@ =~= start + t@.take(i as int + 1));
        i = i + 1;
    }
    assert(t@.take(n as int) =~= t@);
}

/// The line shown for a message.
fn message_line_of(m: &Message) -> (r: String)
    ensures
        r@ == message_line(m.timestamp_secs, m.contents@),
{
    let mut line = String::new();
    string_push(&mut line, '[');
    push_decimal(&mut line, m.timestamp_secs);
    string_push(&mut line, ']');
    string_push(&mut line, ':');
    string_push(&mut line, ' ');
    push_chars(&mut line, m.contents.as_str());
    assert(line@ =~= message_line(m.timestamp_secs, m.contents@));
    line
}

impl Data {
    /// The lines that the interface shows for the messages, oldest first.
    pub fn message_lines(&self) -> (r: Vec<String>)
        ensures
            r@.len() == self.messages().len(),
            forall|i: int|
                0 <= i < r@.len() ==> (#[trigger] r@[i])@ == message_line(
                    self.messages()[i].0,
                    self.messages()[i].1,
                ),
    {
        let mut out: Vec<String> = Vec::new();
        let mut i: usize = 0;
        while i < self.messages.len()
            invariant
                i <= self.messages@.len(),
                out@.len() == i,
                forall|k: int|
                    0 <= k < i ==> (#[trigger] out@[k])@ == message_line(
                        self.messages@[k].timestamp_secs,
                        self.messages@[k].contents@,
                    ),
            decreases self.messages@.len() - i,
        {
            out.push(message_line_of(&self.messages[i]));
            i = i + 1;
        }
        out
    }
}

/// The lines of the network information panel: each counter after its
/// label.
pub open spec fn network_info_lines(info: NetworkInfo) -> Seq<Seq<char>> {
    seq![
        "Peers connected: "@ + decimal(info.num_peers as nat),
        "Total connections: "@ + decimal(info.num_connections as nat),
        "Total pending connections: "@ + decimal(info.num_connections_pending as nat),
        "Total established connections: "@ + decimal(info.num_connections_established as nat),
    ]
}

/// A label followed by a count.
fn labeled_count(label: &str, n: usize) -> (r: String)
    ensures
        r@ == label@ + decimal(n as nat),
{
    let mut line = String::new();
    push_chars(&mut line, label);
    push_decimal(&mut line, n as u64);
    assert(line@ =~= label@ + decimal(n as nat));
    line
}

/// The network information panel.
pub struct NetInfo {
    info: NetworkInfo,
}

impl NetInfo {
    /// The counters shown.
    pub closed spec fn info(&self) -> NetworkInfo {
        self.info
    }

    /// A panel showing `info`.
    pub fn new(info: NetworkInfo) -> (r: NetInfo)
        ensures
            r.info() == info,
    {
        NetInfo { info }
    }

    /// The lines of text that the panel shows.
    pub fn lines(&self) -> (r: Vec<String>)
        ensures
            r@.len() == 4,
            forall|i: int| 0 <= i < 4 ==> (#[trigger] r@[i])@ == network_info_lines(self.info())[i],
    {
        let mut out: Vec<String> = Vec::new();
        out.push(labeled_count("Peers connected: ", self.info.num_peers));
        out.push(labeled_count("Total connections: ", self.info.num_connections));
        out.push(labeled_count("Total pending connections: ", self.info.num_connections_pending));
        out.push(
            labeled_count("Total established connections: ", self.info.num_connections_established),
        );
        out
    }
}

/// The terminal application: its tabs and its network information panel.
pub struct App {
    tabs: TabsInfo,
    network_info: NetInfo,
}

impl App {
    /// The tabs of the application.
    pub closed spec fn tabs(&self) -> TabsInfo {
        self.tabs
    }

    /// The counters that the panel shows.
    pub closed spec fn network_info(&self) -> NetworkInfo {
        self.network_info.info()
    }

    /// An application with the single tab "Main", selected, showing `info`.
    pub fn new(info: NetworkInfo) -> (r: App)
        ensures
            r.tabs().titles() == seq!["Main"@],
            r.tabs().index() == 0,
            r.network_info() == info,
    {
        let titles: Vec<String> = vec!["Main".to_owned()];
        let tabs = TabsInfo::new(titles);
        assert(tabs.titles() =~= seq!["Main"@]);
        App { tabs, network_info: NetInfo::new(info) }
    }

    /// Show new counters.
    pub fn update_network_info(&mut self, info: NetworkInfo)
        ensures
            final(self).network_info() == info,
            final(self).tabs() == old(self).tabs(),
    {
        self.network_info = NetInfo::new(info);
    }

    /// The lines of the network information panel.
    pub fn network_info_lines(&self) -> (r: Vec<String>)
        ensures
            r@.len() == 4,
            forall|i: int| 0 <= i < 4 ==> (#[trigger] r@[i])@ == network_info_lines(self.network_info())[i],
    {
        self.network_info.lines()
    }
}

/// Typing a character and erasing it leaves the line as it was.
pub proof fn lemma_backspace_undoes_push(input: Seq<char>, c: char)
    ensures
        input.push(c).len() > 0,
        input.push(c).drop_last() == input,
{
    assert(input.push(c).drop_last() =~= input);
}

/// The tabs of the interface and the one selected.
pub struct TabsInfo {
    titles: Vec<String>,
    index: usize,
}

/// The tab selected after `index` among `n` tabs.
pub open spec fn next_tab(index: int, n: int) -> int {
    (index + 1) % n
}

/// The tab selected after moving `k` times from `index` among `n` tabs.
pub open spec fn tab_after(index: int, k: nat, n: int) -> int
    decreases k,
{
    if k == 0 {
        index
    } else {
        next_tab(tab_after(index, (k - 1) as nat, n), n)
    }
}

impl TabsInfo {
    /// The selected tab is one of the tabs, or the first when there are
    /// none.
    #[verifier::type_invariant]
    spec fn selected_exists(&self) -> bool {
        self.index == 0 || self.index < self.titles@.len()
    }

    /// The titles of the tabs.
    pub closed spec fn titles(&self) -> Seq<Seq<char>> {
        self.titles@.map_values(|t: String| t@)
    }

    /// The tab selected.
    pub closed spec fn index(&self) -> int {
        self.index as int
    }

    /// Tabs with the given titles, the first selected.
    pub fn new(titles: Vec<String>) -> (r: TabsInfo)
        ensures
            r.titles() == titles@.map_values(|t: String| t@),
            r.index() == 0,
    {
        TabsInfo { titles, index: 0 }
    }

    /// Select the next tab, after the last the first.
    pub fn next(&mut self)
        requires
            old(self).titles().len() > 0,
        ensures
            final(self).index() == next_tab(old(self).index(), old(self).titles().len() as int),
            final(self).titles() == old(self).titles(),
    {
        proof {
            use_type_invariant(&*self);
        }
        let n = self.titles.len();
        assert(n == self.titles().len());
        assert(self.index < n);
        self.index = (self.index + 1) % n;
    }
}

/// Moving to the next tab as many times as there are tabs selects the same
/// tab again.
pub proof fn lemma_tabs_cycle(index: int, n: int)
    requires
        0 <= index < n,
    ensures
        tab_after(index, n as nat, n) == index,
{
    lemma_tab_after(index, n as nat, n);
    vstd::arithmetic::div_mod::lemma_mod_add_multiples_vanish(index, n);
    vstd::arithmetic::div_mod::lemma_small_mod(index as nat, n as nat);
}

/// Moving `k` times from a valid tab adds `k` modulo the number of tabs.
proof fn lemma_tab_after(index: int, k: nat, n: int)
    requires
        0 <= index < n,
    ensures
        tab_after(index, k, n) == (index + k) % n,
    decreases k,
{
    if k == 0 {
        vstd::arithmetic::div_mod::lemma_small_mod(index as nat, n as nat);
    } else {
        lemma_tab_after(index, (k - 1) as nat, n);
        vstd::arithmetic::div_mod::lemma_add_mod_noop_right(1, index + k - 1, n);
    }
}

} // verus!
