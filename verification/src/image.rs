//! Images on slides: which terminal graphics protocol to use, where an
//! image reference points and whether it stays inside the deck's
//! directory, and the FIFO-evicted caches that hold decoded images.

use vstd::prelude::*;

use std::collections::{HashMap, VecDeque};
use std::hash::Hash;

use crate::sync::{decimal, join_path, push_decimal};
use crate::util::{fnv1a, fnv1a_bytes};
use crate::text::{
    chars_of, contains_chars, contains_seq, has_prefix, push_all, seq_eq, starts_with, string_of,
};
use vstd::pervasive::strictly_cloned;
use vstd::std_specs::hash::{
    builds_valid_hashers, contains_borrowed_key, maps_borrowed_key_to_value, obeys_key_model,
};

verus! {

broadcast use vstd::std_specs::hash::group_hash_axioms;

/// Best image protocol the terminal supports.
#[derive(Debug, Clone, Copy, PartialEq, Eq, Structural)]
pub enum ImageProtocol {
    Kitty,
    Sixel,
    HalfBlocks,
}

/// What `str::to_lowercase` returns for `s`.
pub uninterp spec fn lowercase(s: Seq<char>) -> Seq<char>;

/// `str::to_lowercase`: full Unicode lower-casing. The contract names the
/// result, which depends on `s` alone.
#[verifier::external_body]
fn to_lowercase(s: &str) -> (r: String)
    ensures
        r@ == lowercase(s@),
{
    s.to_lowercase()
}

/// The protocol for a terminal described by its environment: `TERM_PROGRAM`
/// (compared lower-cased), `TERM`, and whether `KITTY_WINDOW_ID`,
/// `GHOSTTY_RESOURCES_DIR` and `ITERM_SESSION_ID` are set.
pub open spec fn protocol_for(
    term_program: Seq<char>,
    term: Seq<char>,
    kitty_window: bool,
    ghostty_dir: bool,
    iterm_session: bool,
) -> ImageProtocol {
    let tp = lowercase(term_program);
    if term == "xterm-kitty"@ || kitty_window {
        ImageProtocol::Kitty
    } else if tp == "ghostty"@ || ghostty_dir {
        ImageProtocol::Kitty
    } else if tp == "wezterm"@ || tp == "konsole"@ {
        ImageProtocol::Kitty
    } else if contains_seq(tp, "iterm"@) || iterm_session {
        ImageProtocol::Sixel
    } else if tp == "foot"@ || has_prefix(term, "foot"@) {
        ImageProtocol::Sixel
    } else {
        ImageProtocol::HalfBlocks
    }
}

/// Picks the image protocol from the terminal's environment.
pub fn choose_protocol(
    term_program: &str,
    term: &str,
    kitty_window: bool,
    ghostty_dir: bool,
    iterm_session: bool,
) -> (r: ImageProtocol)
    ensures
        r == protocol_for(term_program@, term@, kitty_window, ghostty_dir, iterm_session),
{
    let lower = to_lowercase(term_program);
    let tp = chars_of(lower.as_str());
    let t = chars_of(term);
    if seq_eq(t.as_slice(), chars_of("xterm-kitty").as_slice()) || kitty_window {
        ImageProtocol::Kitty
    } else if seq_eq(tp.as_slice(), chars_of("ghostty").as_slice()) || ghostty_dir {
        ImageProtocol::Kitty
    } else if seq_eq(tp.as_slice(), chars_of("wezterm").as_slice()) || seq_eq(
        tp.as_slice(),
        chars_of("konsole").as_slice(),
    ) {
        ImageProtocol::Kitty
    } else if contains_chars(tp.as_slice(), chars_of("iterm").as_slice()) || iterm_session {
        ImageProtocol::Sixel
    } else if seq_eq(tp.as_slice(), chars_of("foot").as_slice()) || starts_with(
        t.as_slice(),
        chars_of("foot").as_slice(),
    ) {
        ImageProtocol::Sixel
    } else {
        ImageProtocol::HalfBlocks
    }
}

/// The path an image reference `src` names: `src` itself when absolute,
/// else `src` under the deck's directory `base_dir`.
pub open spec fn image_path(src: Seq<char>, base_dir: Seq<char>) -> Seq<char> {
    if src.len() > 0 && src[0] == '/' {
        src
    } else {
        join_path(base_dir, src)
    }
}

/// The path to canonicalize for the image reference `src` of a deck in
/// `base_dir`.
pub fn resolve(src: &str, base_dir: &str) -> (r: String)
    ensures
        r@ == image_path(src@, base_dir@),
{
    let s = chars_of(src);
    if s.len() > 0 && s[0] == '/' {
        return string_of(s.as_slice());
    }
    let mut p = chars_of(base_dir);
    if p.len() > 0 && p[p.len() - 1] != '/' {
        p.push('/');
    }
    crate::text::push_all(&mut p, s.as_slice());
    assert(p@ =~= image_path(src@, base_dir@));
    string_of(p.as_slice())
}

} // verus!

verus! {

/// The named components of `p` so far and the one being read: the parts
/// between `/` separators, without empty parts and `.`.
pub open spec fn segments_run(p: Seq<char>) -> (Seq<Seq<char>>, Seq<char>)
    decreases p.len(),
{
    if p.len() == 0 {
        (seq![], seq![])
    } else {
        let r = segments_run(p.drop_last());
        if p.last() == '/' {
            (if r.1.len() > 0 && r.1 != seq!['.'] {
                r.0.push(r.1)
            } else {
                r.0
            }, seq![])
        } else {
            (r.0, r.1.push(p.last()))
        }
    }
}

/// The named components of the path `p`, as `Path::components` gives them
/// for a normalized path.
pub open spec fn segments(p: Seq<char>) -> Seq<Seq<char>> {
    let r = segments_run(p);
    if r.1.len() > 0 && r.1 != seq!['.'] {
        r.0.push(r.1)
    } else {
        r.0
    }
}

/// `path` lies under `base`, as `Path::starts_with` decides it: both are
/// absolute or both relative, and `base`'s components begin `path`'s.
pub open spec fn path_within(path: Seq<char>, base: Seq<char>) -> bool {
    let abs_p = path.len() > 0 && path[0] == '/';
    let abs_b = base.len() > 0 && base[0] == '/';
    &&& abs_p == abs_b
    &&& segments(base).len() <= segments(path).len()
    &&& segments(path).take(segments(base).len() as int) == segments(base)
}

fn split_segments(p: &[char]) -> (r: Vec<Vec<char>>)
    ensures
        crate::text::seqs_of(r@) == segments(p@),
{
    let mut out: Vec<Vec<char>> = Vec::new();
    let mut cur: Vec<char> = Vec::new();
    let mut i: usize = 0;
    assert(p@.take(0) =~= seq![]);
    assert(crate::text::seqs_of(out@) =~= seq![]);
    while i < p.len()
        invariant
            i <= p@.len(),
            (crate::text::seqs_of(out@), cur@) == segments_run(p@.take(i as int)),
        decreases p@.len() - i,
    {
        assert(p@.take(i + 1).drop_last() =~= p@.take(i as int));
        assert(p@.take(i + 1).last() == p@[i as int]);
        if p[i] == '/' {
            let dot = cur.len() == 1 && cur[0] == '.';
            assert(dot == (cur@ == seq!['.'])) by {
                if cur@ == seq!['.'] {
                    assert(cur@[0] == '.');
                }
                if dot {
                    assert(cur@ =~= seq!['.']);
                }
            }
            if cur.len() > 0 && !dot {
                let ghost before = crate::text::seqs_of(out@);
                let w = cur;
                out.push(w);
                assert(crate::text::seqs_of(out@) =~= before.push(w@));
            }
            cur = Vec::new();
        } else {
            cur.push(p[i]);
        }
        i = i + 1;
    }
    assert(p@.take(i as int) =~= p@);
    let dot = cur.len() == 1 && cur[0] == '.';
    assert(dot == (cur@ == seq!['.'])) by {
        if cur@ == seq!['.'] {
            assert(cur@[0] == '.');
        }
        if dot {
            assert(cur@ =~= seq!['.']);
        }
    }
    if cur.len() > 0 && !dot {
        let ghost before = crate::text::seqs_of(out@);
        let w = cur;
        out.push(w);
        assert(crate::text::seqs_of(out@) =~= before.push(w@));
    }
    out
}

/// The sandbox rule for images: the canonical image path `path` lies under
/// the canonical deck directory `base`.
pub fn is_within(path: &str, base: &str) -> (r: bool)
    ensures
        r == path_within(path@, base@),
{
    let p = chars_of(path);
    let b = chars_of(base);
    let abs_p = p.len() > 0 && p[0] == '/';
    let abs_b = b.len() > 0 && b[0] == '/';
    if abs_p != abs_b {
        return false;
    }
    let ps = split_segments(p.as_slice());
    let bs = split_segments(b.as_slice());
    if bs.len() > ps.len() {
        return false;
    }
    let ghost sp = crate::text::seqs_of(ps@);
    let ghost sb = crate::text::seqs_of(bs@);
    let mut i: usize = 0;
    while i < bs.len()
        invariant
            i <= bs@.len(),
            bs@.len() <= ps@.len(),
            sp == crate::text::seqs_of(ps@),
            sb == crate::text::seqs_of(bs@),
            sp == segments(path@),
            sb == segments(base@),
            (path@.len() > 0 && path@[0] == '/') == (base@.len() > 0 && base@[0] == '/'),
            forall|j: int| 0 <= j < i ==> sp[j] == sb[j],
        decreases bs@.len() - i,
    {
        assert(sp[i as int] == ps@[i as int]@);
        assert(sb[i as int] == bs@[i as int]@);
        if !seq_eq(ps[i].as_slice(), bs[i].as_slice()) {
            assert(sp.take(sb.len() as int)[i as int] != sb[i as int]);
            return false;
        }
        i = i + 1;
    }
    assert(sp.take(sb.len() as int) =~= sb);
    true
}

} // verus!

verus! {

/// The key type behaves as the caches need: `std`'s hash-table key model
/// holds for it, and a clone of a key equals it.
pub open spec fn key_model<K: Clone>() -> bool {
    &&& obeys_key_model::<K>()
    &&& forall|a: K, b: K| #[trigger] strictly_cloned(a, b) ==> a == b
}

/// The entries and queue left after evicting from the front of the queue
/// while the map holds `cap` or more entries (a queued key no longer in the
/// map evicts nothing).
pub open spec fn evicted<K, V>(m: Map<K, V>, q: Seq<K>, cap: nat) -> (Map<K, V>, Seq<K>)
    decreases q.len(),
{
    if m.len() >= cap && q.len() > 0 {
        evicted(m.remove(q[0]), q.drop_first(), cap)
    } else {
        (m, q)
    }
}

/// FIFO-evicted cache. Insertion order is tracked so the whole cache never
/// thrashes on overflow: on `insert`, the oldest entries are popped one at a
/// time until fewer than `capacity` remain; in steady state with a fixed
/// capacity this drops exactly one entry per insert.
pub struct FifoCache<K, V> {
    map: HashMap<K, V>,
    order: VecDeque<K>,
    capacity: usize,
}

impl<K: Hash + Eq + Clone, V> FifoCache<K, V> {
    /// The cached entries.
    pub closed spec fn entries(&self) -> Map<K, V> {
        self.map@
    }

    /// The insertion order, oldest first (keys may repeat, or be gone).
    pub closed spec fn queue(&self) -> Seq<K> {
        self.order@
    }

    /// The number of entries the cache makes room for.
    pub closed spec fn capacity(&self) -> usize {
        self.capacity
    }

    /// Finitely many entries, and every cached key is queued for eviction.
    pub open spec fn wf(&self) -> bool {
        &&& self.entries().dom().finite()
        &&& forall|k: K| #[trigger] self.entries().contains_key(k) ==> self.queue().contains(k)
    }

    /// An empty cache making room for `capacity` entries.
    pub fn new(capacity: usize) -> (r: Self)
        ensures
            r.entries() == Map::<K, V>::empty(),
            r.queue() == Seq::<K>::empty(),
            r.capacity() == capacity,
            r.wf(),
    {
        FifoCache { map: HashMap::new(), order: VecDeque::new(), capacity }
    }

    /// The value cached for `k`.
    pub fn get(&self, k: &K) -> (r: Option<&V>)
        ensures
            key_model::<K>() ==> match r {
                Some(v) => self.entries().contains_key(*k) && self.entries()[*k] == *v,
                None => !self.entries().contains_key(*k),
            },
    {
        self.map.get(k)
    }

    /// `k` is cached.
    pub fn contains(&self, k: &K) -> (r: bool)
        ensures
            key_model::<K>() ==> r == self.entries().contains_key(*k),
    {
        self.map.contains_key(k)
    }

    /// The number of cached entries.
    pub fn len(&self) -> (r: usize)
        ensures
            key_model::<K>() ==> r == self.entries().len(),
    {
        self.map.len()
    }

    /// Caches `v` under `k`, first evicting the oldest entries while the
    /// cache is full.
    pub fn insert(&mut self, k: K, v: V)
        ensures
            final(self).capacity() == old(self).capacity(),
            key_model::<K>() ==> {
                let e = evicted(old(self).entries(), old(self).queue(), old(self).capacity() as nat);
                &&& final(self).entries() == e.0.insert(k, v)
                &&& final(self).queue() == e.1.push(k)
            },
            key_model::<K>() && old(self).wf() ==> final(self).wf(),
    {
        let ghost m0 = self.map@;
        let ghost q0 = self.order@;
        while self.map.len() >= self.capacity
            invariant
                self.capacity == old(self).capacity,
                m0 == old(self).map@,
                q0 == old(self).order@,
                key_model::<K>() ==> evicted(m0, q0, self.capacity as nat) == evicted(
                    self.map@,
                    self.order@,
                    self.capacity as nat,
                ),
                key_model::<K>() && old(self).wf() ==> self.wf(),
            ensures
                self.capacity == old(self).capacity,
                key_model::<K>() ==> evicted(m0, q0, self.capacity as nat) == (
                    self.map@,
                    self.order@,
                ),
                key_model::<K>() && old(self).wf() ==> self.wf(),
            decreases self.order@.len(),
        {
            let ghost before_m = self.map@;
            let ghost before_q = self.order@;
            match self.order.pop_front() {
                Some(oldest) => {
                    self.map.remove(&oldest);
                    proof {
                        if key_model::<K>() {
                            assert(before_q.drop_first() =~= self.order@);
                            assert(self.map@ == before_m.remove(oldest));
                            if old(self).wf() {
                                assert forall|kk: K| #[trigger]
                                    self.map@.contains_key(kk) implies self.order@.contains(kk) by {
                                    assert(before_m.contains_key(kk));
                                    assert(before_q.contains(kk));
                                    let j = choose|j: int|
                                        0 <= j < before_q.len() && before_q[j] == kk;
                                    assert(j != 0);
                                    assert(self.order@[j - 1] == kk);
                                }
                            }
                        }
                    }
                },
                None => {
                    proof {
                        if key_model::<K>() {
                            assert(evicted(self.map@, self.order@, self.capacity as nat) == (
                                self.map@,
                                self.order@,
                            ));
                        }
                    }
                    break;
                },
            }
        }
        let ghost mid_q = self.order@;
        let ghost mid_m = self.map@;
        let kc = k.clone();
        self.order.push_back(kc);
        self.map.insert(k, v);
        proof {
            if key_model::<K>() {
                assert(strictly_cloned(k, kc));
                assert(kc == k);
                if old(self).wf() {
                    assert forall|kk: K| #[trigger]
                        self.map@.contains_key(kk) implies self.order@.contains(kk) by {
                        if kk == k {
                            assert(self.order@[self.order@.len() - 1] == kk);
                        } else {
                            assert(mid_m.contains_key(kk));
                            let j = choose|j: int| 0 <= j < mid_q.len() && mid_q[j] == kk;
                            assert(self.order@[j] == kk);
                        }
                    }
                }
            }
        }
    }
}

/// `u64` keys meet the caches' key model: `std`'s hash-table model holds for
/// them and a clone of one equals it.
pub proof fn lemma_u64_key_model()
    ensures
        key_model::<u64>(),
{
    broadcast use vstd::std_specs::hash::group_hash_axioms;

    assert forall|a: u64, b: u64| #[trigger] strictly_cloned(a, b) implies a == b by {}
}

/// The key a name is cached under: its FNV-1a hash.
pub open spec fn name_key(name: Seq<char>) -> u64 {
    fnv1a_bytes(vstd::utf8::encode_utf8(name))
}

/// The key under which the size `cols` by `rows` of the image `src` is
/// cached: the name `"<cols>x<rows>:<src>"`, which no other source and size
/// share.
pub open spec fn sized_name_spec(src: Seq<char>, cols: u16, rows: u16) -> Seq<char> {
    decimal(cols as nat) + "x"@ + decimal(rows as nat) + ":"@ + src
}

/// The name under which the size `cols` by `rows` of the image `src` is
/// cached.
pub fn sized_name(src: &str, cols: u16, rows: u16) -> (r: String)
    ensures
        r@ == sized_name_spec(src@, cols, rows),
{
    let mut out: Vec<char> = Vec::new();
    push_decimal(&mut out, cols as u64);
    out.push('x');
    push_decimal(&mut out, rows as u64);
    out.push(':');
    let cs = chars_of(src);
    push_all(&mut out, cs.as_slice());
    proof {
        reveal_strlit("x");
        reveal_strlit(":");
    }
    assert(out@ =~= sized_name_spec(src@, cols, rows));
    string_of(out.as_slice())
}

impl<T> FifoCache<u64, (String, T)> {
    /// The value cached under the name `name` (by its hash, checking the
    /// stored name, so another name with the same hash is a miss).
    pub fn get_named(&self, name: &str) -> (r: Option<&T>)
        ensures
            match r {
                Some(t) => {
                    &&& self.entries().contains_key(name_key(name@))
                    &&& self.entries()[name_key(name@)].0@ == name@
                    &&& self.entries()[name_key(name@)].1 == *t
                },
                None => !(self.entries().contains_key(name_key(name@))
                    && self.entries()[name_key(name@)].0@ == name@),
            },
    {
        proof {
            lemma_u64_key_model();
        }
        let key = fnv1a(name);
        match self.get(&key) {
            Some(e) => {
                if seq_eq(chars_of(e.0.as_str()).as_slice(), chars_of(name).as_slice()) {
                    Some(&e.1)
                } else {
                    None
                }
            },
            None => None,
        }
    }

    /// Caches `t` under the name `name`, first evicting the oldest entries
    /// while the cache is full; an entry of another name with the same hash
    /// is replaced.
    pub fn insert_named(&mut self, name: String, t: T)
        ensures
            final(self).capacity() == old(self).capacity(),
            ({
                let e = evicted(old(self).entries(), old(self).queue(), old(self).capacity() as nat);
                &&& final(self).entries() == e.0.insert(name_key(name@), (name, t))
                &&& final(self).queue() == e.1.push(name_key(name@))
            }),
            old(self).wf() ==> final(self).wf(),
    {
        proof {
            lemma_u64_key_model();
        }
        let key = fnv1a(name.as_str());
        self.insert(key, (name, t));
    }
}

impl<V> FifoCache<String, V> {
    /// Borrowed-key lookup for `String`-keyed caches: `k` is cached.
    pub fn contains_key_str(&self, k: &str) -> (r: bool)
        ensures
            obeys_key_model::<String>() ==> r == contains_borrowed_key(self.entries(), k),
    {
        self.map.contains_key(k)
    }

    /// Borrowed-key lookup for `String`-keyed caches: the value cached for
    /// `k`.
    pub fn get_str(&self, k: &str) -> (r: Option<&V>)
        ensures
            obeys_key_model::<String>() ==> match r {
                Some(v) => maps_borrowed_key_to_value(self.entries(), k, *v),
                None => !contains_borrowed_key(self.entries(), k),
            },
    {
        self.map.get(k)
    }
}

} // verus!

verus! {

proof fn lemma_evicted_shape<K, V>(m: Map<K, V>, q: Seq<K>, cap: nat)
    requires
        m.dom().finite(),
        forall|x: K| #[trigger] m.contains_key(x) ==> q.contains(x),
    ensures
        evicted(m, q, cap).0.dom().finite(),
        evicted(m, q, cap).0.len() < cap || evicted(m, q, cap).0.len() == 0,
    decreases q.len(),
{
    if m.len() >= cap && q.len() > 0 {
        let m2 = m.remove(q[0]);
        let q2 = q.drop_first();
        assert forall|x: K| #[trigger] m2.contains_key(x) implies q2.contains(x) by {
            assert(q.contains(x));
            let j = choose|j: int| 0 <= j < q.len() && q[j] == x;
            assert(j != 0);
            assert(q2[j - 1] == x);
        }
        lemma_evicted_shape(m2, q2, cap);
    } else if q.len() == 0 {
        assert(m.dom() =~= Set::<K>::empty()) by {
            assert forall|x: K| !m.dom().contains(x) by {
                if m.contains_key(x) {
                    assert(q.contains(x));
                }
            }
        }
    }
}

/// The cache never outgrows its capacity (or one entry, for a capacity of
/// zero): what an insert into a well-formed cache leaves holds at most that
/// many entries.
pub proof fn lemma_fifo_bounded<K: Hash + Eq + Clone, V>(c: FifoCache<K, V>, k: K, v: V)
    requires
        c.wf(),
    ensures
        evicted(c.entries(), c.queue(), c.capacity() as nat).0.insert(k, v).len() <= (if c.capacity()
            > 0 {
            c.capacity() as nat
        } else {
            1
        }),
{
    let cap = c.capacity() as nat;
    lemma_evicted_shape(c.entries(), c.queue(), cap);
    let e = evicted(c.entries(), c.queue(), cap).0;
    if e.contains_key(k) {
        assert(e.insert(k, v).dom() =~= e.dom());
    } else {
        assert(e.insert(k, v).dom() =~= e.dom().insert(k));
    }
}

/// In steady state, a full cache whose queue lists each cached key once
/// evicts exactly its oldest entry to make room for an insert.
pub proof fn lemma_fifo_evicts_oldest<K: Hash + Eq + Clone, V>(c: FifoCache<K, V>)
    requires
        c.wf(),
        c.capacity() > 0,
        c.entries().len() == c.capacity(),
        c.queue().no_duplicates(),
        forall|x: K| #[trigger] c.queue().contains(x) ==> c.entries().contains_key(x),
    ensures
        evicted(c.entries(), c.queue(), c.capacity() as nat) == (
            c.entries().remove(c.queue()[0]),
            c.queue().drop_first(),
        ),
{
    let m = c.entries();
    let q = c.queue();
    let cap = c.capacity() as nat;
    assert(q.len() > 0) by {
        if q.len() == 0 {
            assert(m.dom() =~= Set::<K>::empty()) by {
                assert forall|x: K| !m.dom().contains(x) by {
                    if m.contains_key(x) {
                        assert(q.contains(x));
                    }
                }
            }
        }
    }
    assert(q.contains(q[0]));
    assert(m.contains_key(q[0]));
    assert(m.remove(q[0]).len() == cap - 1);
    assert(evicted(m.remove(q[0]), q.drop_first(), cap) == (m.remove(q[0]), q.drop_first()));
}

/// Eviction removes the keys of a prefix of the queue, oldest first, and
/// keeps every other entry as it was.
pub proof fn lemma_evicted_prefix<K, V>(m: Map<K, V>, q: Seq<K>, cap: nat) -> (n: int)
    ensures
        0 <= n <= q.len(),
        evicted(m, q, cap).1 == q.skip(n),
        forall|x: K| #[trigger]
            evicted(m, q, cap).0.contains_key(x) == (m.contains_key(x) && !q.take(n).contains(x)),
        forall|x: K| #[trigger]
            evicted(m, q, cap).0.contains_key(x) ==> evicted(m, q, cap).0[x] == m[x],
    decreases q.len(),
{
    if m.len() >= cap && q.len() > 0 {
        let q2 = q.drop_first();
        let n1 = lemma_evicted_prefix(m.remove(q[0]), q2, cap);
        assert(q2.skip(n1) =~= q.skip(n1 + 1));
        assert forall|x: K| #[trigger] q.take(n1 + 1).contains(x) == (x == q[0] || q2.take(
            n1,
        ).contains(x)) by {
            if q.take(n1 + 1).contains(x) {
                let j = choose|j: int| 0 <= j < n1 + 1 && #[trigger] q.take(n1 + 1)[j] == x;
                if j > 0 {
                    assert(q2.take(n1)[j - 1] == x);
                }
            }
            if q2.take(n1).contains(x) {
                let j = choose|j: int| 0 <= j < n1 && #[trigger] q2.take(n1)[j] == x;
                assert(q.take(n1 + 1)[j + 1] == x);
            }
            if x == q[0] {
                assert(q.take(n1 + 1)[0] == x);
            }
        }
        n1 + 1
    } else {
        assert(q.skip(0) =~= q);
        assert forall|x: K| !#[trigger] q.take(0).contains(x) by {}
        0
    }
}

/// What an insert into a well-formed cache leaves: the new value under its
/// key, at most `capacity` entries, every cached key still queued, and the
/// only entries gone are those of keys popped from the front of the queue
/// (the oldest first); every kept entry keeps its value.
pub proof fn lemma_fifo_insert_law<K: Hash + Eq + Clone, V>(c: FifoCache<K, V>, k: K, v: V)
    requires
        c.wf(),
        c.capacity() >= 1,
    ensures
        ({
            let e = evicted(c.entries(), c.queue(), c.capacity() as nat);
            let after = e.0.insert(k, v);
            &&& after.contains_key(k) && after[k] == v
            &&& after.len() <= c.capacity()
            &&& forall|x: K| #[trigger] after.contains_key(x) ==> e.1.push(k).contains(x)
            &&& exists|n: int|
                0 <= n <= c.queue().len() && e.1 == c.queue().skip(n) && forall|x: K| #[trigger]
                    c.entries().contains_key(x) && !after.contains_key(x) ==> c.queue().take(n).contains(x)
            &&& forall|x: K| #[trigger] after.contains_key(x) && x != k ==> after[x] == c.entries()[x]
        }),
{
    let m = c.entries();
    let q = c.queue();
    let cap = c.capacity() as nat;
    lemma_fifo_bounded(c, k, v);
    lemma_evicted_shape(m, q, cap);
    let n = lemma_evicted_prefix(m, q, cap);
    let e = evicted(m, q, cap);
    let after = e.0.insert(k, v);
    assert forall|x: K| #[trigger] after.contains_key(x) implies e.1.push(k).contains(x) by {
        if x == k {
            assert(e.1.push(k)[e.1.len() as int] == k);
        } else {
            assert(e.0.contains_key(x));
            assert(m.contains_key(x) && !q.take(n).contains(x));
            assert(q.contains(x));
            let j = choose|j: int| 0 <= j < q.len() && #[trigger] q[j] == x;
            if j < n {
                assert(q.take(n)[j] == x);
            }
            assert(e.1[j - n] == x);
            assert(e.1.push(k)[j - n] == x);
        }
    }
    assert(forall|x: K| #[trigger]
        m.contains_key(x) && !after.contains_key(x) ==> q.take(n).contains(x));
}

} // verus!
