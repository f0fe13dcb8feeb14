//! Grouping tracks into album cards for the album grid.

use vstd::prelude::*;
use vstd::multiset::Multiset;
use vstd::string::StringExecFns;

use crate::library::Track;
use crate::text::{
    chars_le, chars_of, lemma_lex_antisymmetric, lemma_lex_total, lemma_lex_transitive, lex_le,
    str_eq,
};

verus! {

/// The identity of an album card: album title and album artist.
#[derive(Debug, Clone, PartialEq, Eq)]
pub struct AlbumKey {
    pub album: String,
    pub artist: String,
}

/// One album card: its key and its tracks, in playback order.
#[derive(Debug, Clone, PartialEq, Eq)]
pub struct AlbumCard {
    pub key: AlbumKey,
    pub tracks: Vec<Track>,
}

/// A key taken as (album, artist).
pub open spec fn key_view(k: AlbumKey) -> (Seq<char>, Seq<char>) {
    (k.album@, k.artist@)
}

/// A card taken as (key, tracks).
pub open spec fn card_view(c: AlbumCard) -> ((Seq<char>, Seq<char>), Seq<Track>) {
    (key_view(c.key), c.tracks@)
}

/// The album a track is filed under: its album, or `Unknown album`.
pub open spec fn album_of(t: Track) -> Seq<char> {
    if t.album@.len() == 0 {
        "Unknown album"@
    } else {
        t.album@
    }
}

/// The artist a track is filed under: its album artist, else its artist,
/// else `Unknown artist`.
pub open spec fn artist_of(t: Track) -> Seq<char> {
    if t.album_artist@.len() == 0 {
        if t.artist@.len() == 0 {
            "Unknown artist"@
        } else {
            t.artist@
        }
    } else {
        t.album_artist@
    }
}

/// The card a track belongs to.
pub open spec fn key_of(t: Track) -> (Seq<char>, Seq<char>) {
    (album_of(t), artist_of(t))
}

/// Strict lexicographic order on strings.
pub open spec fn lex_lt(a: Seq<char>, b: Seq<char>) -> bool {
    lex_le(a, b) && a != b
}

/// Card order: by album, then by artist.
pub open spec fn key_lt(a: (Seq<char>, Seq<char>), b: (Seq<char>, Seq<char>)) -> bool {
    lex_lt(a.0, b.0) || (a.0 == b.0 && lex_lt(a.1, b.1))
}

/// The order of optional numbers: none first, then by value.
pub open spec fn opt_lt(a: Option<u32>, b: Option<u32>) -> bool {
    match (a, b) {
        (None, Some(_)) => true,
        (Some(x), Some(y)) => x < y,
        _ => false,
    }
}

/// Track order within a card: by disc, then track number, then title.
pub open spec fn track_lt(a: Track, b: Track) -> bool {
    ||| opt_lt(a.disc_no, b.disc_no)
    ||| (a.disc_no == b.disc_no && opt_lt(a.track_no, b.track_no))
    ||| (a.disc_no == b.disc_no && a.track_no == b.track_no && lex_lt(a.title@, b.title@))
}

/// Where `t` goes into tracks kept in order: before the first track that
/// comes after it, so tracks that tie keep their arrival order.
pub open spec fn slot_for(s: Seq<Track>, t: Track) -> int
    decreases s.len(),
{
    if s.len() == 0 {
        0
    } else if track_lt(t, s[0]) {
        0
    } else {
        1 + slot_for(s.drop_first(), t)
    }
}

/// Where a track with key `k` is filed: the first card whose key is `k` or
/// comes after it.
pub open spec fn card_slot(cards: Seq<((Seq<char>, Seq<char>), Seq<Track>)>, k: (Seq<char>, Seq<char>)) -> int
    decreases cards.len(),
{
    if cards.len() == 0 {
        0
    } else if cards[0].0 == k || key_lt(k, cards[0].0) {
        0
    } else {
        1 + card_slot(cards.drop_first(), k)
    }
}

/// The cards after filing one more track.
pub open spec fn file_track(cards: Seq<((Seq<char>, Seq<char>), Seq<Track>)>, t: Track) -> Seq<((Seq<char>, Seq<char>), Seq<Track>)> {
    let k = key_of(t);
    let i = card_slot(cards, k);
    if i < cards.len() && cards[i].0 == k {
        cards.update(i, (k, cards[i].1.insert(slot_for(cards[i].1, t), t)))
    } else {
        cards.insert(i, (k, seq![t]))
    }
}

/// The album cards of `tracks`: one per (album, artist), in album then
/// artist order, each holding its tracks by disc, track number and title,
/// ties in arrival order.
pub open spec fn albums_of(tracks: Seq<Track>) -> Seq<((Seq<char>, Seq<char>), Seq<Track>)>
    decreases tracks.len(),
{
    if tracks.len() == 0 {
        Seq::empty()
    } else {
        file_track(albums_of(tracks.drop_last()), tracks.last())
    }
}

proof fn lemma_slot_for_skip(s: Seq<Track>, t: Track, i: int)
    requires
        0 <= i <= s.len(),
        forall|k: int| 0 <= k < i ==> !track_lt(t, #[trigger] s[k]),
    ensures
        slot_for(s, t) == i + slot_for(s.skip(i), t),
    decreases i,
{
    if i > 0 {
        lemma_slot_for_skip(s.drop_first(), t, i - 1);
        assert(s.drop_first().skip(i - 1) =~= s.skip(i));
    } else {
        assert(s.skip(0) =~= s);
    }
}

proof fn lemma_card_skip(cards: Seq<((Seq<char>, Seq<char>), Seq<Track>)>, k: (Seq<char>, Seq<char>), i: int)
    requires
        0 <= i <= cards.len(),
        forall|j: int| 0 <= j < i ==> (#[trigger] cards[j]).0 != k && !key_lt(k, cards[j].0),
    ensures
        card_slot(cards, k) == i + card_slot(cards.skip(i), k),
    decreases i,
{
    if i > 0 {
        lemma_card_skip(cards.drop_first(), k, i - 1);
        assert(cards.drop_first().skip(i - 1) =~= cards.skip(i));
    } else {
        assert(cards.skip(0) =~= cards);
    }
}

/// Strict string order.
fn str_lt(a: &str, b: &str) -> (r: bool)
    ensures
        r == lex_lt(a@, b@),
{
    let x = chars_of(a);
    let y = chars_of(b);
    chars_le(&x, &y) && !str_eq(a, b)
}

fn opt_lt_exec(a: Option<u32>, b: Option<u32>) -> (r: bool)
    ensures
        r == opt_lt(a, b),
{
    match (a, b) {
        (None, Some(_)) => true,
        (Some(x), Some(y)) => x < y,
        _ => false,
    }
}

fn track_before(a: &Track, b: &Track) -> (r: bool)
    ensures
        r == track_lt(*a, *b),
{
    opt_lt_exec(a.disc_no, b.disc_no) || (a.disc_no == b.disc_no && opt_lt_exec(a.track_no, b.track_no))
        || (a.disc_no == b.disc_no && a.track_no == b.track_no && str_lt(a.title.as_str(), b.title.as_str()))
}

fn key_for(t: &Track) -> (k: AlbumKey)
    ensures
        key_view(k) == key_of(*t),
{
    let album = if t.album.as_str().is_empty() {
        "Unknown album".to_string()
    } else {
        t.album.clone()
    };
    let artist = if t.album_artist.as_str().is_empty() {
        if t.artist.as_str().is_empty() {
            "Unknown artist".to_string()
        } else {
            t.artist.clone()
        }
    } else {
        t.album_artist.clone()
    };
    AlbumKey { album, artist }
}

/// The cards of `v`, each taken by its view.
pub open spec fn cards_view(v: Seq<AlbumCard>) -> Seq<((Seq<char>, Seq<char>), Seq<Track>)> {
    v.map_values(|c: AlbumCard| card_view(c))
}

/// Files one track into the cards.
fn file_into(cards: &mut Vec<AlbumCard>, t: &Track)
    ensures
        cards_view(final(cards)@) == file_track(cards_view(old(cards)@), *t),
{
    let ghost cv = cards_view(cards@);
    let key = key_for(t);
    let ghost k = key_view(key);
    let mut i: usize = 0;
    let mut found = false;
    let mut before = false;
    while i < cards.len() && !found && !before
        invariant
            i <= cards@.len(),
            cv == cards_view(cards@),
            k == key_view(key),
            k == key_of(*t),
            found ==> i < cards@.len() && cv[i as int].0 == k,
            before ==> i < cards@.len() && cv[i as int].0 != k && key_lt(k, cv[i as int].0),
            forall|j: int| 0 <= j < i ==> (#[trigger] cv[j]).0 != k && !key_lt(k, cv[j].0),
        decreases cards@.len() - i + (if found || before {
            0int
        } else {
            1int
        }),
    {
        let c = &cards[i];
        assert(cv[i as int] == card_view(cards@[i as int]));
        let same = c.key.album == key.album && c.key.artist == key.artist;
        if same {
            found = true;
        } else if str_lt(key.album.as_str(), c.key.album.as_str()) || (key.album == c.key.album
            && str_lt(key.artist.as_str(), c.key.artist.as_str())) {
            before = true;
        } else {
            i = i + 1;
        }
    }
    proof {
        lemma_card_skip(cv, k, i as int);
    }
    if found {
        let ghost old_cards = cards@;
        let mut card = cards.remove(i);
        assert(card == old_cards[i as int]);
        assert(cv[i as int] == card_view(card));
        let mut j: usize = 0;
        let mut stop = false;
        let ghost s = card.tracks@;
        while j < card.tracks.len() && !stop
            invariant
                j <= card.tracks@.len(),
                card.tracks@ == s,
                stop ==> j < s.len() && track_lt(*t, s[j as int]),
                forall|m: int| 0 <= m < j ==> !track_lt(*t, #[trigger] s[m]),
            decreases s.len() - j + (if stop {
                0int
            } else {
                1int
            }),
        {
            if track_before(t, &card.tracks[j]) {
                stop = true;
            } else {
                j = j + 1;
            }
        }
        proof {
            lemma_slot_for_skip(s, *t, j as int);
        }
        card.tracks.insert(j, t.clone());
        assert(card_view(card) == (k, s.insert(slot_for(s, *t), *t)));
        cards.insert(i, card);
        assert(cards@ =~= old_cards.update(i as int, card));
        assert(card_slot(cv, k) == i as int);
        assert(cards_view(cards@) =~= cv.update(i as int, card_view(card)));
        assert(cv[i as int].1 == s);
        assert(key_of(*t) == k);
        assert(file_track(cv, *t) == cv.update(
            i as int,
            (k, cv[i as int].1.insert(slot_for(cv[i as int].1, *t), *t)),
        ));
        assert(cv.update(i as int, card_view(card)) == file_track(cv, *t));
    } else {
        let mut tracks: Vec<Track> = Vec::new();
        tracks.push(t.clone());
        cards.insert(i, AlbumCard { key, tracks });
        assert(cards_view(cards@) =~= file_track(cv, *t));
    }
}

/// The count shown above the album grid: `1 album`, `N albums`.
pub fn album_count_label(n: usize) -> (s: String)
    ensures
        s@ == crate::ui::widgets::player::decimal_text(n as nat) + (if n == 1 {
            " album"@
        } else {
            " albums"@
        }),
{
    let mut s = String::new();
    crate::ui::widgets::player::push_decimal(&mut s, n as u64);
    if n == 1 {
        s.append(" album");
    } else {
        s.append(" albums");
    }
    s
}

/// Builds the album cards for the supplied tracks.
pub fn group_by_album(tracks: &[Track]) -> (cards: Vec<AlbumCard>)
    ensures
        cards_view(cards@) == albums_of(tracks@),
{
    let mut cards: Vec<AlbumCard> = Vec::new();
    let mut i: usize = 0;
    assert(cards_view(cards@) =~= albums_of(tracks@.take(0)));
    while i < tracks.len()
        invariant
            i <= tracks@.len(),
            cards_view(cards@) == albums_of(tracks@.take(i as int)),
        decreases tracks@.len() - i,
    {
        file_into(&mut cards, &tracks[i]);
        assert(tracks@.take(i + 1).drop_last() =~= tracks@.take(i as int));
        i = i + 1;
    }
    assert(tracks@.take(tracks@.len() as int) =~= tracks@);
    cards
}

proof fn lemma_lex_lt_transitive(a: Seq<char>, b: Seq<char>, c: Seq<char>)
    requires
        lex_lt(a, b),
        lex_lt(b, c),
    ensures
        lex_lt(a, c),
{
    lemma_lex_transitive(a, b, c);
    if a == c {
        lemma_lex_antisymmetric(a, b);
    }
}

proof fn lemma_lex_lt_total(a: Seq<char>, b: Seq<char>)
    ensures
        a == b || lex_lt(a, b) || lex_lt(b, a),
{
    lemma_lex_total(a, b);
}

proof fn lemma_key_lt_transitive(a: (Seq<char>, Seq<char>), b: (Seq<char>, Seq<char>), c: (Seq<char>, Seq<char>))
    requires
        key_lt(a, b),
        key_lt(b, c),
    ensures
        key_lt(a, c),
{
    if lex_lt(a.0, b.0) && lex_lt(b.0, c.0) {
        lemma_lex_lt_transitive(a.0, b.0, c.0);
    } else if a.0 == b.0 && b.0 == c.0 {
        lemma_lex_lt_transitive(a.1, b.1, c.1);
    }
}

proof fn lemma_key_lt_total(a: (Seq<char>, Seq<char>), b: (Seq<char>, Seq<char>))
    ensures
        a == b || key_lt(a, b) || key_lt(b, a),
{
    lemma_lex_lt_total(a.0, b.0);
    lemma_lex_lt_total(a.1, b.1);
}

proof fn lemma_track_lt_transitive(a: Track, b: Track, c: Track)
    requires
        track_lt(a, b),
        track_lt(b, c),
    ensures
        track_lt(a, c),
{
    if a.disc_no == b.disc_no && b.disc_no == c.disc_no && a.track_no == b.track_no && b.track_no
        == c.track_no {
        lemma_lex_lt_transitive(a.title@, b.title@, c.title@);
    }
}

proof fn lemma_card_slot(cards: Seq<((Seq<char>, Seq<char>), Seq<Track>)>, k: (Seq<char>, Seq<char>))
    ensures
        0 <= card_slot(cards, k) <= cards.len(),
        forall|m: int| 0 <= m < card_slot(cards, k) ==> (#[trigger] cards[m]).0 != k && !key_lt(
            k,
            cards[m].0,
        ),
        card_slot(cards, k) < cards.len() ==> cards[card_slot(cards, k)].0 == k || key_lt(
            k,
            cards[card_slot(cards, k)].0,
        ),
    decreases cards.len(),
{
    if cards.len() > 0 && !(cards[0].0 == k || key_lt(k, cards[0].0)) {
        lemma_card_slot(cards.drop_first(), k);
        assert forall|m: int| 0 <= m < card_slot(cards, k) implies (#[trigger] cards[m]).0 != k
            && !key_lt(k, cards[m].0) by {
            if m > 0 {
                assert(cards[m] == cards.drop_first()[m - 1]);
            }
        }
    }
}

proof fn lemma_slot_for(s: Seq<Track>, t: Track)
    ensures
        0 <= slot_for(s, t) <= s.len(),
        forall|m: int| 0 <= m < slot_for(s, t) ==> !track_lt(t, #[trigger] s[m]),
        slot_for(s, t) < s.len() ==> track_lt(t, s[slot_for(s, t)]),
    decreases s.len(),
{
    if s.len() > 0 && !track_lt(t, s[0]) {
        lemma_slot_for(s.drop_first(), t);
        assert forall|m: int| 0 <= m < slot_for(s, t) implies !track_lt(t, #[trigger] s[m]) by {
            if m > 0 {
                assert(s[m] == s.drop_first()[m - 1]);
            }
        }
    }
}

/// The shape of a set of album cards: keys strictly ascending, no card
/// empty, every track on the card of its key, and no track on a card placed
/// before one it sorts before.
pub open spec fn cards_ordered(cards: Seq<((Seq<char>, Seq<char>), Seq<Track>)>) -> bool {
    &&& forall|i: int, j: int| 0 <= i < j < cards.len() ==> key_lt(#[trigger] cards[i].0, #[trigger] cards[j].0)
    &&& forall|i: int| 0 <= i < cards.len() ==> (#[trigger] cards[i]).1.len() > 0
    &&& forall|i: int, m: int| 0 <= i < cards.len() && 0 <= m < cards[i].1.len() ==> key_of(
        #[trigger] cards[i].1[m],
    ) == cards[i].0
    &&& forall|i: int, a: int, b: int| 0 <= i < cards.len() && 0 <= a < b < cards[i].1.len() ==> !track_lt(
        #[trigger] cards[i].1[b],
        #[trigger] cards[i].1[a],
    )
}

proof fn lemma_file_track_ordered(cards: Seq<((Seq<char>, Seq<char>), Seq<Track>)>, t: Track)
    requires
        cards_ordered(cards),
    ensures
        cards_ordered(file_track(cards, t)),
{
    let k = key_of(t);
    let i = card_slot(cards, k);
    lemma_card_slot(cards, k);
    let r = file_track(cards, t);
    if i < cards.len() && cards[i].0 == k {
        let s = cards[i].1;
        let j = slot_for(s, t);
        lemma_slot_for(s, t);
        let n = s.insert(j, t);
        assert(r[i] == (k, n));
        assert forall|a: int, b: int| 0 <= a < b < n.len() implies !track_lt(#[trigger] n[b], #[trigger] n[a]) by {
            if b < j {
            } else if a < j && b == j {
            } else if a < j && b > j {
                assert(n[b] == s[b - 1]);
            } else if a == j {
                assert(n[b] == s[b - 1]);
                if track_lt(s[b - 1], t) {
                    if b - 1 > j {
                        assert(!track_lt(s[b - 1], s[j]));
                        lemma_track_lt_transitive(s[b - 1], t, s[j]);
                    } else {
                        lemma_track_lt_transitive(s[j], t, s[j]);
                    }
                }
            } else {
                assert(n[a] == s[a - 1]);
                assert(n[b] == s[b - 1]);
            }
        }
        assert forall|x: int, m: int| 0 <= x < r.len() && 0 <= m < r[x].1.len() implies key_of(
            #[trigger] r[x].1[m],
        ) == r[x].0 by {
            if x == i {
                if m < j {
                } else if m > j {
                    assert(n[m] == s[m - 1]);
                }
            }
        }
        assert forall|x: int, a: int, b: int| 0 <= x < r.len() && 0 <= a < b < r[x].1.len() implies !track_lt(
            #[trigger] r[x].1[b],
            #[trigger] r[x].1[a],
        ) by {
            if x == i {
                assert(r[x].1 == n);
            }
        }
    } else {
        assert forall|a: int, b: int| 0 <= a < b < r.len() implies key_lt(#[trigger] r[a].0, #[trigger] r[b].0) by {
            if b < i {
            } else if a < i && b == i {
                lemma_key_lt_total(cards[a].0, k);
            } else if a < i && b > i {
                assert(r[b] == cards[b - 1]);
            } else if a == i {
                assert(r[b] == cards[b - 1]);
                if b - 1 > i {
                    lemma_key_lt_transitive(k, cards[i].0, cards[b - 1].0);
                }
            } else {
                assert(r[a] == cards[a - 1]);
                assert(r[b] == cards[b - 1]);
            }
        }
        assert forall|x: int| 0 <= x < r.len() implies (#[trigger] r[x]).1.len() > 0 by {
            if x > i {
                assert(r[x] == cards[x - 1]);
            }
        }
        assert forall|x: int, m: int| 0 <= x < r.len() && 0 <= m < r[x].1.len() implies key_of(
            #[trigger] r[x].1[m],
        ) == r[x].0 by {
            if x > i {
                assert(r[x] == cards[x - 1]);
            }
        }
        assert forall|x: int, a: int, b: int| 0 <= x < r.len() && 0 <= a < b < r[x].1.len() implies !track_lt(
            #[trigger] r[x].1[b],
            #[trigger] r[x].1[a],
        ) by {
            if x > i {
                assert(r[x] == cards[x - 1]);
            }
        }
    }
}

/// The album cards of any list of tracks have strictly ascending keys (album,
/// then artist), none of them is empty, every track sits on the card of its
/// own album and artist, and each card lists its tracks by disc, track
/// number and title.
pub proof fn law_album_cards_ordered(tracks: Seq<Track>)
    ensures
        cards_ordered(albums_of(tracks)),
    decreases tracks.len(),
{
    if tracks.len() > 0 {
        law_album_cards_ordered(tracks.drop_last());
        lemma_file_track_ordered(albums_of(tracks.drop_last()), tracks.last());
    }
}

/// The tracks of `tracks` filed under `k`, in their order.
pub open spec fn with_key(tracks: Seq<Track>, k: (Seq<char>, Seq<char>)) -> Seq<Track> {
    tracks.filter(|u: Track| key_of(u) == k)
}

/// All tracks on the cards whose key is `k`, counted with repetition.
pub open spec fn keyed(cards: Seq<((Seq<char>, Seq<char>), Seq<Track>)>, k: (Seq<char>, Seq<char>)) -> Multiset<Track>
    decreases cards.len(),
{
    if cards.len() == 0 {
        Multiset::empty()
    } else if cards.last().0 == k {
        keyed(cards.drop_last(), k).add(cards.last().1.to_multiset())
    } else {
        keyed(cards.drop_last(), k)
    }
}

/// The number of tracks over all the cards.
pub open spec fn total_len(cards: Seq<((Seq<char>, Seq<char>), Seq<Track>)>) -> nat
    decreases cards.len(),
{
    if cards.len() == 0 {
        0
    } else {
        total_len(cards.drop_last()) + cards.last().1.len()
    }
}

proof fn lemma_keyed_concat(
    a: Seq<((Seq<char>, Seq<char>), Seq<Track>)>,
    b: Seq<((Seq<char>, Seq<char>), Seq<Track>)>,
    k: (Seq<char>, Seq<char>),
)
    ensures
        keyed(a + b, k) =~= keyed(a, k).add(keyed(b, k)),
        total_len(a + b) == total_len(a) + total_len(b),
    decreases b.len(),
{
    if b.len() == 0 {
        assert(a + b =~= a);
    } else {
        lemma_keyed_concat(a, b.drop_last(), k);
        assert((a + b).drop_last() =~= a + b.drop_last());
        assert((a + b).last() == b.last());
    }
}

proof fn lemma_keyed_single(c: ((Seq<char>, Seq<char>), Seq<Track>), k: (Seq<char>, Seq<char>))
    ensures
        keyed(seq![c], k) =~= (if c.0 == k {
            c.1.to_multiset()
        } else {
            Multiset::empty()
        }),
        total_len(seq![c]) == c.1.len(),
{
    let none = Seq::<((Seq<char>, Seq<char>), Seq<Track>)>::empty();
    assert(seq![c].drop_last() =~= none);
    assert(seq![c].last() == c);
    assert(keyed(none, k) == Multiset::<Track>::empty());
    assert(total_len(none) == 0);
    assert(Multiset::<Track>::empty().add(c.1.to_multiset()) =~= c.1.to_multiset());
}

proof fn lemma_keyed_file_track(cards: Seq<((Seq<char>, Seq<char>), Seq<Track>)>, t: Track, k: (Seq<char>, Seq<char>))
    ensures
        keyed(file_track(cards, t), k) =~= (if key_of(t) == k {
            keyed(cards, k).insert(t)
        } else {
            keyed(cards, k)
        }),
        total_len(file_track(cards, t)) == total_len(cards) + 1,
{
    let kt = key_of(t);
    let i = card_slot(cards, kt);
    lemma_card_slot(cards, kt);
    let r = file_track(cards, t);
    let front = cards.take(i);
    if i < cards.len() && cards[i].0 == kt {
        let s = cards[i].1;
        let j = slot_for(s, t);
        lemma_slot_for(s, t);
        let back = cards.skip(i + 1);
        let old_c = cards[i];
        let new_c = (kt, s.insert(j, t));
        assert(cards =~= front + seq![old_c] + back);
        assert(r =~= front + seq![new_c] + back);
        lemma_keyed_concat(front + seq![old_c], back, k);
        lemma_keyed_concat(front, seq![old_c], k);
        lemma_keyed_concat(front + seq![new_c], back, k);
        lemma_keyed_concat(front, seq![new_c], k);
        lemma_keyed_single(old_c, k);
        lemma_keyed_single(new_c, k);
        vstd::seq_lib::to_multiset_insert(s, j, t);
        vstd::seq_lib::to_multiset_len(s);
        vstd::seq_lib::to_multiset_len(s.insert(j, t));
    } else {
        let back = cards.skip(i);
        let new_c = (kt, seq![t]);
        assert(cards =~= front + back);
        assert(r =~= front + seq![new_c] + back);
        lemma_keyed_concat(front, back, k);
        lemma_keyed_concat(front + seq![new_c], back, k);
        lemma_keyed_concat(front, seq![new_c], k);
        lemma_keyed_single(new_c, k);
        assert(seq![t] =~= Seq::<Track>::empty().push(t));
        vstd::seq_lib::to_multiset_build(Seq::<Track>::empty(), t);
        assert(Seq::<Track>::empty().to_multiset() =~= Multiset::<Track>::empty()) by {
            vstd::seq_lib::to_multiset_len(Seq::<Track>::empty());
        }
    }
}

proof fn lemma_albums_keyed(tracks: Seq<Track>)
    ensures
        forall|k: (Seq<char>, Seq<char>)| #[trigger] keyed(albums_of(tracks), k) =~= with_key(tracks, k).to_multiset(),
        total_len(albums_of(tracks)) == tracks.len(),
    decreases tracks.len(),
{
    if tracks.len() == 0 {
        assert forall|k: (Seq<char>, Seq<char>)| #[trigger] keyed(albums_of(tracks), k) =~= with_key(tracks, k).to_multiset() by {
            reveal(Seq::filter);
            assert(with_key(tracks, k) =~= Seq::<Track>::empty());
            vstd::seq_lib::to_multiset_len(Seq::<Track>::empty());
        }
    } else {
        let rest = tracks.drop_last();
        let t = tracks.last();
        lemma_albums_keyed(rest);
        assert(rest.push(t) =~= tracks);
        assert forall|k: (Seq<char>, Seq<char>)| #[trigger] keyed(albums_of(tracks), k) =~= with_key(tracks, k).to_multiset() by {
            lemma_keyed_file_track(albums_of(rest), t, k);
            assert(keyed(albums_of(rest), k) =~= with_key(rest, k).to_multiset());
            rest.lemma_filter_push(t, |u: Track| key_of(u) == k);
            vstd::seq_lib::to_multiset_build(with_key(rest, k), t);
        }
        lemma_keyed_file_track(albums_of(rest), t, key_of(t));
    }
}

proof fn lemma_keyed_distinct(cards: Seq<((Seq<char>, Seq<char>), Seq<Track>)>, k: (Seq<char>, Seq<char>))
    requires
        forall|i: int, j: int| 0 <= i < j < cards.len() ==> key_lt(#[trigger] cards[i].0, #[trigger] cards[j].0),
    ensures
        forall|i: int| 0 <= i < cards.len() && (#[trigger] cards[i]).0 == k ==> keyed(cards, k) =~= cards[i].1.to_multiset(),
        (forall|i: int| 0 <= i < cards.len() ==> (#[trigger] cards[i]).0 != k) ==> keyed(cards, k) =~= Multiset::<Track>::empty(),
    decreases cards.len(),
{
    if cards.len() > 0 {
        let rest = cards.drop_last();
        assert forall|i: int, j: int| 0 <= i < j < rest.len() implies key_lt(#[trigger] rest[i].0, #[trigger] rest[j].0) by {
            assert(rest[i] == cards[i]);
            assert(rest[j] == cards[j]);
        }
        lemma_keyed_distinct(rest, k);
        let n = cards.len() - 1;
        if cards.last().0 == k {
            assert forall|i: int| 0 <= i < n implies (#[trigger] rest[i]).0 != k by {
                assert(rest[i] == cards[i]);
                assert(key_lt(cards[i].0, cards[n].0));
                lemma_key_lt_irreflexive(k);
            }
        }
        assert forall|i: int| 0 <= i < cards.len() && (#[trigger] cards[i]).0 == k implies keyed(cards, k) =~= cards[i].1.to_multiset() by {
            if i < n {
                assert(rest[i] == cards[i]);
                if cards.last().0 == k {
                    assert(key_lt(cards[i].0, cards[n].0));
                    lemma_key_lt_irreflexive(k);
                }
            }
        }
        if forall|i: int| 0 <= i < cards.len() ==> (#[trigger] cards[i]).0 != k {
            assert forall|i: int| 0 <= i < rest.len() implies (#[trigger] rest[i]).0 != k by {
                assert(rest[i] == cards[i]);
            }
            assert(cards[n].0 != k);
        }
    }
}

proof fn lemma_key_lt_irreflexive(k: (Seq<char>, Seq<char>))
    ensures
        !key_lt(k, k),
{
}

/// Grouping neither loses nor invents a track: each card holds exactly the
/// given tracks of its album and artist, as often as they occur; every given
/// track has a card; and the cards hold as many tracks as were given.
pub proof fn law_album_cards_hold_their_tracks(tracks: Seq<Track>)
    ensures
        forall|i: int| 0 <= i < albums_of(tracks).len() ==> (#[trigger] albums_of(tracks)[i]).1.to_multiset()
            =~= with_key(tracks, albums_of(tracks)[i].0).to_multiset(),
        forall|m: int| 0 <= m < tracks.len() ==> exists|i: int| 0 <= i < albums_of(tracks).len()
            && (#[trigger] albums_of(tracks)[i]).0 == key_of(#[trigger] tracks[m]),
        total_len(albums_of(tracks)) == tracks.len(),
{
    let cards = albums_of(tracks);
    law_album_cards_ordered(tracks);
    lemma_albums_keyed(tracks);
    assert forall|i: int| 0 <= i < cards.len() implies (#[trigger] cards[i]).1.to_multiset()
        =~= with_key(tracks, cards[i].0).to_multiset() by {
        lemma_keyed_distinct(cards, cards[i].0);
        assert(keyed(cards, cards[i].0) =~= with_key(tracks, cards[i].0).to_multiset());
    }
    assert forall|m: int| 0 <= m < tracks.len() implies exists|i: int| 0 <= i < cards.len()
        && (#[trigger] cards[i]).0 == key_of(#[trigger] tracks[m]) by {
        let k = key_of(tracks[m]);
        if forall|i: int| 0 <= i < cards.len() ==> (#[trigger] cards[i]).0 != k {
            lemma_keyed_distinct(cards, k);
            assert(keyed(cards, k) =~= with_key(tracks, k).to_multiset());
            tracks.lemma_filter_contains(|u: Track| key_of(u) == k, m);
            vstd::seq_lib::to_multiset_contains(with_key(tracks, k), tracks[m]);
            assert(false);
        }
    }
}

/// A track with an album artist is filed under that album artist, whatever
/// its own artist: it sits on the card keyed by its album (or `Unknown
/// album`) and its album artist, and so tracks sharing album and album
/// artist share one card, as the tracks of a compilation do.
pub proof fn law_album_artist_keys_the_card(tracks: Seq<Track>, a: int, b: int)
    requires
        0 <= a < tracks.len(),
        0 <= b < tracks.len(),
        tracks[a].album_artist@.len() > 0,
        tracks[b].album@ == tracks[a].album@,
        tracks[b].album_artist@ == tracks[a].album_artist@,
    ensures
        exists|i: int|
            0 <= i < albums_of(tracks).len() && (#[trigger] albums_of(tracks)[i]).0 == (
                if tracks[a].album@.len() == 0 {
                    "Unknown album"@
                } else {
                    tracks[a].album@
                },
                tracks[a].album_artist@,
            ) && albums_of(tracks)[i].1.contains(tracks[a]) && albums_of(tracks)[i].1.contains(
                tracks[b],
            ),
{
    let cards = albums_of(tracks);
    law_album_cards_hold_their_tracks(tracks);
    let k = key_of(tracks[a]);
    assert(key_of(tracks[b]) == k);
    let i = choose|i: int| 0 <= i < cards.len() && (#[trigger] cards[i]).0 == key_of(tracks[a]);
    assert(cards[i].1.to_multiset() =~= with_key(tracks, k).to_multiset());
    tracks.lemma_filter_contains(|u: Track| key_of(u) == k, a);
    tracks.lemma_filter_contains(|u: Track| key_of(u) == k, b);
    vstd::seq_lib::to_multiset_contains(with_key(tracks, k), tracks[a]);
    vstd::seq_lib::to_multiset_contains(with_key(tracks, k), tracks[b]);
    vstd::seq_lib::to_multiset_contains(cards[i].1, tracks[a]);
    vstd::seq_lib::to_multiset_contains(cards[i].1, tracks[b]);
}

/// Every track sits on the card of its album (`Unknown album` when it has
/// none) and its album artist, falling back to its own artist and then to
/// `Unknown artist` only when it has no album artist.
pub proof fn law_track_on_its_card(tracks: Seq<Track>, m: int)
    requires
        0 <= m < tracks.len(),
    ensures
        exists|i: int|
            0 <= i < albums_of(tracks).len() && (#[trigger] albums_of(tracks)[i]).0 == (
                if tracks[m].album@.len() == 0 {
                    "Unknown album"@
                } else {
                    tracks[m].album@
                },
                if tracks[m].album_artist@.len() > 0 {
                    tracks[m].album_artist@
                } else if tracks[m].artist@.len() > 0 {
                    tracks[m].artist@
                } else {
                    "Unknown artist"@
                },
            ) && albums_of(tracks)[i].1.contains(tracks[m]),
{
    lemma_track_on_key_card(tracks, m);
}

proof fn lemma_track_on_key_card(tracks: Seq<Track>, m: int)
    requires
        0 <= m < tracks.len(),
    ensures
        exists|i: int|
            0 <= i < albums_of(tracks).len() && (#[trigger] albums_of(tracks)[i]).0 == key_of(tracks[m])
                && albums_of(tracks)[i].1.contains(tracks[m]),
{
    let cards = albums_of(tracks);
    law_album_cards_hold_their_tracks(tracks);
    let k = key_of(tracks[m]);
    let i = choose|i: int| 0 <= i < cards.len() && (#[trigger] cards[i]).0 == key_of(tracks[m]);
    assert(cards[i].1.to_multiset() =~= with_key(tracks, k).to_multiset());
    tracks.lemma_filter_contains(|u: Track| key_of(u) == k, m);
    vstd::seq_lib::to_multiset_contains(with_key(tracks, k), tracks[m]);
    vstd::seq_lib::to_multiset_contains(cards[i].1, tracks[m]);
}

} // verus!
