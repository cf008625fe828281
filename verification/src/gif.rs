//! Saved GIFs: the record type, the API-facing GIF shape, the saved-gifs
//! table model, and the operations the application performs on it.

use vstd::prelude::*;
use crate::error::Error;

verus! {

/// A GIF as the third-party search API shapes it: the representation consumed
/// on insert and produced for API responses.
#[derive(Debug)]
pub struct GiphyGif {
    /// The GIF's id in the third-party system.
    pub id: String,
    /// The title of the GIF.
    pub title: String,
    /// The URL of the GIF.
    pub url: String,
    /// Whether the viewing user has already saved this GIF.
    pub is_saved: bool,
    /// The category the user gave this GIF, if any.
    pub category: Option<String>,
}

/// Mathematical image of a `GiphyGif`.
#[verifier::ext_equal]
pub ghost struct GiphyGifV {
    pub id: Seq<char>,
    pub title: Seq<char>,
    pub url: Seq<char>,
    pub is_saved: bool,
    pub category: Option<Seq<char>>,
}

impl View for GiphyGif {
    type V = GiphyGifV;

    open spec fn view(&self) -> GiphyGifV {
        GiphyGifV {
            id: self.id@,
            title: self.title@,
            url: self.url@,
            is_saved: self.is_saved,
            category: self.category.deep_view(),
        }
    }
}

/// A GIF from the third-party API which has been saved by a user.
#[derive(Debug)]
pub struct SavedGif {
    /// Object id, assigned by the storage layer.
    pub id: i64,
    /// The id of the user which has saved this GIF.
    pub user: i64,
    /// The id of this GIF in the third-party system.
    pub giphy_id: String,
    /// The title of the GIF.
    pub title: String,
    /// The URL of the GIF.
    pub url: String,
    /// The category given to this GIF by the user.
    pub category: Option<String>,
}

/// Mathematical image of a `SavedGif`.
#[verifier::ext_equal]
pub ghost struct SavedGifV {
    pub id: int,
    pub user: int,
    pub giphy_id: Seq<char>,
    pub title: Seq<char>,
    pub url: Seq<char>,
    pub category: Option<Seq<char>>,
}

impl View for SavedGif {
    type V = SavedGifV;

    open spec fn view(&self) -> SavedGifV {
        SavedGifV {
            id: self.id as int,
            user: self.user as int,
            giphy_id: self.giphy_id@,
            title: self.title@,
            url: self.url@,
            category: self.category.deep_view(),
        }
    }
}

/// Clone an optional string, field for field.
fn clone_opt(o: &Option<String>) -> (r: Option<String>)
    ensures
        r == *o,
{
    match o {
        Some(s) => Some(s.clone()),
        None => None,
    }
}

impl Clone for SavedGif {
    fn clone(&self) -> (r: Self)
        ensures
            r == *self,
    {
        SavedGif {
            id: self.id,
            user: self.user,
            giphy_id: self.giphy_id.clone(),
            title: self.title.clone(),
            url: self.url.clone(),
            category: clone_opt(&self.category),
        }
    }
}

/// The mathematical image of a run of rows.
pub open spec fn view_rows(v: Seq<SavedGif>) -> Seq<SavedGifV> {
    v.map_values(|g: SavedGif| g@)
}

/// The rows owned by `user`, in table order.
pub open spec fn gifs_of_user(s: Seq<SavedGifV>, user: int) -> Seq<SavedGifV> {
    s.filter(|g: SavedGifV| g.user == user)
}

/// Filtering a sequence extended by one element keeps the filtered prefix and
/// appends the element exactly when it satisfies the predicate.
proof fn lemma_filter_push<A>(s: Seq<A>, x: A, p: spec_fn(A) -> bool)
    ensures
        s.push(x).filter(p) == (if p(x) {
            s.filter(p).push(x)
        } else {
            s.filter(p)
        }),
{
    reveal(Seq::filter);
    assert(s.push(x).drop_last() =~= s);
}

/// The saved-gifs table: the rows it holds and the next object id the storage
/// layer will assign. Writes take the store exclusively; reads share it.
#[derive(Debug)]
pub struct SavedGifStore {
    /// The rows, in insertion order.
    pub rows: Vec<SavedGif>,
    /// The next object id to assign.
    pub next_id: i64,
}

impl SavedGifStore {
    /// Every row's id was assigned below `next_id`, and no two rows share one.
    pub open spec fn well_formed(&self) -> bool {
        &&& 1 <= self.next_id
        &&& forall|i: int|
            0 <= i < self.rows@.len() ==> 0 < (#[trigger] self.rows@[i])@.id < self.next_id
        &&& forall|i: int, j: int|
            0 <= i < j < self.rows@.len() ==> self.rows@[i]@.id != self.rows@[j]@.id
    }

    /// An empty table, about to assign id 1.
    pub fn new() -> (r: SavedGifStore)
        ensures
            r.well_formed(),
            r@ == Seq::<SavedGifV>::empty(),
            r.next_id == 1,
    {
        let r = SavedGifStore { rows: Vec::new(), next_id: 1 };
        proof {
            assert(r@ =~= Seq::<SavedGifV>::empty());
        }
        r
    }
}

impl View for SavedGifStore {
    type V = Seq<SavedGifV>;

    open spec fn view(&self) -> Seq<SavedGifV> {
        view_rows(self.rows@)
    }
}

impl SavedGif {
    /// Insert a new record for `user` taken from the given GIF data, returning
    /// the persisted record with its generated id. The only storage failure the
    /// table itself can produce is running out of ids, surfaced as the generic
    /// storage error.
    pub fn insert(user: i64, gif: &GiphyGif, tx: &mut SavedGifStore) -> (r: Result<SavedGif, Error>)
        requires
            old(tx).well_formed(),
        ensures
            final(tx).well_formed(),
            r is Ok <==> old(tx).next_id < i64::MAX,
            r matches Ok(g) ==> {
                &&& g@ == (SavedGifV {
                    id: old(tx).next_id as int,
                    user: user as int,
                    giphy_id: gif@.id,
                    title: gif@.title,
                    url: gif@.url,
                    category: gif@.category,
                })
                &&& final(tx)@ == old(tx)@.push(g@)
                &&& final(tx).next_id == old(tx).next_id + 1
                &&& forall|i: int| 0 <= i < old(tx)@.len() ==> (#[trigger] old(tx)@[i]).id != g@.id
            },
            r matches Err(e) ==> {
                &&& *final(tx) == *old(tx)
                &&& crate::error::is_internal_error(e@)
                &&& e@.cause is None
            },
    {
        if tx.next_id == i64::MAX {
            return Err(Error::new_ise());
        }
        let id = tx.next_id;
        let row = SavedGif {
            id,
            user,
            giphy_id: gif.id.clone(),
            title: gif.title.clone(),
            url: gif.url.clone(),
            category: clone_opt(&gif.category),
        };
        let out = row.clone();
        let ghost rows_before = tx.rows@;
        tx.rows.push(row);
        tx.next_id = id + 1;
        proof {
            broadcast use vstd::prelude::Seq::lemma_push_map_commute;

            assert(tx@ == view_rows(rows_before).push(out@));
        }
        Ok(out)
    }

    /// Every record saved by `user`, in table order; an empty sequence — never
    /// an error — when the user has saved nothing.
    pub fn all_for_user(user: i64, db: &SavedGifStore) -> (r: Result<Vec<SavedGif>, Error>)
        ensures
            r matches Ok(v) && view_rows(v@) == gifs_of_user(db@, user as int),
    {
        let mut out: Vec<SavedGif> = Vec::new();
        let mut i: usize = 0;
        while i < db.rows.len()
            invariant
                i <= db.rows.len(),
                view_rows(out@) == gifs_of_user(view_rows(db.rows@.take(i as int)), user as int),
            decreases db.rows.len() - i,
        {
            let ghost prefix = view_rows(db.rows@.take(i as int));
            let ghost out_before = out@;
            let row = &db.rows[i];
            if row.user == user {
                out.push(row.clone());
            }
            proof {
                broadcast use vstd::prelude::Seq::lemma_push_map_commute;

                assert(db.rows@.take(i + 1 as int) =~= db.rows@.take(i as int).push(db.rows@[i as int]));
                lemma_filter_push(prefix, db.rows@[i as int]@, |g: SavedGifV| g.user == user as int);
                if row.user == user {
                    assert(view_rows(out@) =~= view_rows(out_before).push(db.rows@[i as int]@));
                }
            }
            i += 1;
        }
        proof {
            assert(db.rows@.take(db.rows@.len() as int) =~= db.rows@);
        }
        Ok(out)
    }

    /// The records `user` saved among the requested third-party ids, keyed by
    /// that id. Requested ids with no record for the user are simply absent
    /// from the mapping — no error.
    pub fn for_user_matching_ids(user: i64, ids: &[String], db: &SavedGifStore) -> (r: Result<
        GifsById,
        Error,
    >)
        ensures
            r matches Ok(m) && m.well_formed() && (forall|k: Seq<char>|
                #[trigger] m@.contains_key(k) ==> matches_key(m@[k], user as int, k)
                    && db@.contains(m@[k])) && (forall|k: Seq<char>|
                #[trigger] m@.contains_key(k) <==> (view_strs(ids@).contains(k) && has_gif(
                    db@,
                    user as int,
                    k,
                ))),
    {
        let mut m = GifsById::new();
        let mut i: usize = 0;
        while i < db.rows.len()
            invariant
                i <= db.rows@.len(),
                m.well_formed(),
                forall|k: Seq<char>|
                    #[trigger] m@.contains_key(k) ==> matches_key(m@[k], user as int, k)
                        && db@.contains(m@[k]),
                forall|k: Seq<char>|
                    #[trigger] m@.contains_key(k) <==> (view_strs(ids@).contains(k) && has_gif(
                        db@.take(i as int),
                        user as int,
                        k,
                    )),
            decreases db.rows@.len() - i,
        {
            let ghost m_before = m@;
            let row = &db.rows[i];
            proof {
                assert(db@[i as int] == db.rows@[i as int]@);
            }
            if row.user == user && contains_string(ids, &row.giphy_id) {
                if !m.contains_id(&row.giphy_id) {
                    let g = row.clone();
                    proof {
                        assert(db@.contains(db@[i as int]));
                    }
                    m.push_new(g);
                }
            }
            proof {
                assert(db@.take(i + 1 as int) =~= db@.take(i as int).push(db@[i as int]));
                assert forall|k: Seq<char>| #[trigger] m@.contains_key(k) <==> (view_strs(
                    ids@,
                ).contains(k) && has_gif(db@.take(i + 1 as int), user as int, k)) by {
                    let prefix = db@.take(i as int);
                    let longer = db@.take(i + 1 as int);
                    if m@.contains_key(k) {
                        if m_before.contains_key(k) {
                            let j = choose|j: int|
                                0 <= j < prefix.len() && matches_key(
                                    #[trigger] prefix[j],
                                    user as int,
                                    k,
                                );
                            assert(matches_key(longer[j], user as int, k));
                        } else {
                            assert(k == db@[i as int].giphy_id);
                            assert(matches_key(longer[i as int], user as int, k));
                        }
                    }
                    if view_strs(ids@).contains(k) && has_gif(longer, user as int, k) {
                        let j = choose|j: int|
                            0 <= j < longer.len() && matches_key(
                                #[trigger] longer[j],
                                user as int,
                                k,
                            );
                        if j < i as int {
                            assert(matches_key(prefix[j], user as int, k));
                            assert(m_before.contains_key(k));
                        } else {
                            assert(longer[j] == db@[i as int]);
                            assert(row@ == db@[i as int]);
                            assert(m@.contains_key(k));
                        }
                    }
                }
            }
            i += 1;
        }
        proof {
            assert(db@.take(db@.len() as int) =~= db@);
        }
        Ok(m)
    }

    /// Give every row of `user` under the third-party id `gif` the new
    /// category, returning one updated record, or nothing — not an error —
    /// when no such row exists for that user.
    pub fn set_category(user: i64, gif: String, category: String, tx: &mut SavedGifStore) -> (r:
        Result<Option<SavedGif>, Error>)
        requires
            old(tx).well_formed(),
        ensures
            final(tx).well_formed(),
            final(tx).next_id == old(tx).next_id,
            final(tx)@.len() == old(tx)@.len(),
            forall|i: int|
                0 <= i < old(tx)@.len() ==> #[trigger] final(tx)@[i] == (if matches_key(
                    old(tx)@[i],
                    user as int,
                    gif@,
                ) {
                    with_category(old(tx)@[i], category@)
                } else {
                    old(tx)@[i]
                }),
            r matches Ok(o) && (o is Some <==> has_gif(old(tx)@, user as int, gif@)),
            r matches Ok(o) && (o matches Some(g) ==> exists|i: int|
                0 <= i < old(tx)@.len() && matches_key(#[trigger] old(tx)@[i], user as int, gif@)
                    && g@ == with_category(old(tx)@[i], category@)),
    {
        let ghost rows_before = tx.rows@;
        let mut out: Vec<SavedGif> = Vec::new();
        let mut found: Option<SavedGif> = None;
        let mut i: usize = 0;
        while i < tx.rows.len()
            invariant
                i <= tx.rows@.len(),
                tx.rows@ == rows_before,
                out@.len() == i,
                forall|j: int|
                    0 <= j < i ==> #[trigger] out@[j]@ == (if matches_key(
                        rows_before[j]@,
                        user as int,
                        gif@,
                    ) {
                        with_category(rows_before[j]@, category@)
                    } else {
                        rows_before[j]@
                    }),
                found is Some <==> has_gif(view_rows(rows_before.take(i as int)), user as int, gif@),
                found matches Some(g) ==> exists|j: int|
                    0 <= j < i && matches_key(#[trigger] rows_before[j]@, user as int, gif@) && g@
                        == with_category(rows_before[j]@, category@),
            decreases tx.rows@.len() - i,
        {
            let ghost prefix = view_rows(rows_before.take(i as int));
            let row = &tx.rows[i];
            if row.user == user && row.giphy_id == gif {
                let updated = SavedGif {
                    id: row.id,
                    user: row.user,
                    giphy_id: row.giphy_id.clone(),
                    title: row.title.clone(),
                    url: row.url.clone(),
                    category: Some(category.clone()),
                };
                if found.is_none() {
                    found = Some(updated.clone());
                }
                out.push(updated);
                proof {
                    assert(matches_key(rows_before[i as int]@, user as int, gif@));
                }
            } else {
                out.push(row.clone());
                proof {
                    assert(!matches_key(rows_before[i as int]@, user as int, gif@));
                }
            }
            proof {
                assert(rows_before.take(i + 1 as int) =~= rows_before.take(i as int).push(
                    rows_before[i as int],
                ));
                broadcast use vstd::prelude::Seq::lemma_push_map_commute;

                let longer = view_rows(rows_before.take(i + 1 as int));
                assert(longer =~= prefix.push(rows_before[i as int]@));
                if matches_key(rows_before[i as int]@, user as int, gif@) {
                    assert(matches_key(longer[i as int], user as int, gif@));
                    assert(has_gif(longer, user as int, gif@));
                } else {
                    if has_gif(longer, user as int, gif@) {
                        let j = choose|j: int|
                            0 <= j < longer.len() && matches_key(
                                #[trigger] longer[j],
                                user as int,
                                gif@,
                            );
                        assert(j < i as int);
                        assert(prefix[j] == longer[j]);
                        assert(has_gif(prefix, user as int, gif@));
                    }
                    if has_gif(prefix, user as int, gif@) {
                        let j = choose|j: int|
                            0 <= j < prefix.len() && matches_key(
                                #[trigger] prefix[j],
                                user as int,
                                gif@,
                            );
                        assert(longer[j] == prefix[j]);
                        assert(has_gif(longer, user as int, gif@));
                    }
                }
            }
            i += 1;
        }
        tx.rows = out;
        proof {
            assert(rows_before.take(rows_before.len() as int) =~= rows_before);
            assert forall|j: int| 0 <= j < rows_before.len() implies #[trigger] view_rows(
                rows_before,
            )[j] == rows_before[j]@ by {}
            assert forall|j: int| 0 <= j < tx.rows@.len() implies #[trigger] tx@[j] == (
            if matches_key(view_rows(rows_before)[j], user as int, gif@) {
                with_category(view_rows(rows_before)[j], category@)
            } else {
                view_rows(rows_before)[j]
            }) by {
                assert(tx@[j] == tx.rows@[j]@);
            }
            assert forall|j: int| 0 <= j < tx.rows@.len() implies 0 < (
            #[trigger] tx.rows@[j])@.id < tx.next_id by {
                assert(tx@[j] == tx.rows@[j]@);
                assert(view_rows(rows_before)[j] == rows_before[j]@);
            }
            assert forall|j: int, l: int| 0 <= j < l < tx.rows@.len() implies tx.rows@[j]@.id
                != tx.rows@[l]@.id by {
                assert(tx@[j] == tx.rows@[j]@);
                assert(tx@[l] == tx.rows@[l]@);
                assert(view_rows(rows_before)[j] == rows_before[j]@);
                assert(view_rows(rows_before)[l] == rows_before[l]@);
            }
            if found is Some {
                let g = found->Some_0;
                let j = choose|j: int|
                    0 <= j < rows_before.len() && matches_key(
                        #[trigger] rows_before[j]@,
                        user as int,
                        gif@,
                    ) && g@ == with_category(rows_before[j]@, category@);
                assert(old(tx)@[j] == rows_before[j]@);
                assert(matches_key(old(tx)@[j], user as int, gif@));
            }
            if has_gif(old(tx)@, user as int, gif@) {
                let j = choose|j: int|
                    0 <= j < old(tx)@.len() && matches_key(#[trigger] old(tx)@[j], user as int, gif@);
                assert(rows_before[j]@ == old(tx)@[j]);
                assert(matches_key(view_rows(rows_before)[j], user as int, gif@));
                assert(has_gif(view_rows(rows_before), user as int, gif@));
            }
            if has_gif(view_rows(rows_before), user as int, gif@) {
                let j = choose|j: int|
                    0 <= j < view_rows(rows_before).len() && matches_key(
                        #[trigger] view_rows(rows_before)[j],
                        user as int,
                        gif@,
                    );
                assert(old(tx)@[j] == view_rows(rows_before)[j]);
                assert(has_gif(old(tx)@, user as int, gif@));
            }
        }
        Ok(found)
    }
}

/// `g` with its category set to `c`; every other field kept.
pub open spec fn with_category(g: SavedGifV, c: Seq<char>) -> SavedGifV {
    SavedGifV { category: Some(c), ..g }
}

/// Does row `g` belong to `user` under the third-party id `gid`?
pub open spec fn matches_key(g: SavedGifV, user: int, gid: Seq<char>) -> bool {
    g.user == user && g.giphy_id == gid
}

/// Does the table hold a row for `user` under the third-party id `gid`?
pub open spec fn has_gif(s: Seq<SavedGifV>, user: int, gid: Seq<char>) -> bool {
    exists|i: int| 0 <= i < s.len() && matches_key(#[trigger] s[i], user, gid)
}

impl From<SavedGif> for GiphyGif {
    /// Map a saved record back into the shape used for API responses: the
    /// viewing user has this GIF saved, and id, title, url and category carry
    /// over unchanged.
    fn from(src: SavedGif) -> (r: Self) {
        GiphyGif {
            id: src.giphy_id,
            title: src.title,
            url: src.url,
            is_saved: true,
            category: src.category,
        }
    }
}

impl vstd::std_specs::convert::FromSpecImpl<SavedGif> for GiphyGif {
    open spec fn obeys_from_spec() -> bool {
        true
    }

    open spec fn from_spec(src: SavedGif) -> GiphyGif {
        GiphyGif {
            id: src.giphy_id,
            title: src.title,
            url: src.url,
            is_saved: true,
            category: src.category,
        }
    }
}

/// Converting a saved record to the API-facing GIF shape always marks it as
/// already saved and carries the third-party id, title, url and category over
/// unchanged.
pub proof fn lemma_into_giphy_marks_saved(src: SavedGif)
    ensures
        ({
            let r = <GiphyGif as vstd::std_specs::convert::FromSpec<SavedGif>>::from_spec(src);
            &&& r@.is_saved == true
            &&& r@.id == src@.giphy_id
            &&& r@.title == src@.title
            &&& r@.url == src@.url
            &&& r@.category == src@.category
        }),
{
}

/// Inserting a record and then listing its owner's gifs yields the old
/// listing with the new record appended: in particular the listing contains
/// it, and a user who had nothing saved now has exactly that one record.
pub proof fn lemma_insert_then_all_for_user(s: Seq<SavedGifV>, g: SavedGifV, user: int)
    requires
        g.user == user,
    ensures
        gifs_of_user(s.push(g), user) == gifs_of_user(s, user).push(g),
        gifs_of_user(s.push(g), user).contains(g),
        gifs_of_user(s, user).len() == 0 ==> gifs_of_user(s.push(g), user) == seq![g],
{
    lemma_filter_push(s, g, |x: SavedGifV| x.user == user);
    let r = gifs_of_user(s, user).push(g);
    assert(r[r.len() - 1] == g);
    assert(r.contains(g));
    if gifs_of_user(s, user).len() == 0 {
        assert(gifs_of_user(s.push(g), user) =~= seq![g]);
    }
}

/// The sequence of views of a run of strings.
pub open spec fn view_strs(s: Seq<String>) -> Seq<Seq<char>> {
    s.map_values(|x: String| x@)
}

/// Does the run of ids hold the given one?
fn contains_string(ids: &[String], s: &String) -> (r: bool)
    ensures
        r == view_strs(ids@).contains(s@),
{
    let mut i: usize = 0;
    while i < ids.len()
        invariant
            i <= ids@.len(),
            forall|j: int| 0 <= j < i ==> (#[trigger] ids@[j])@ != s@,
        decreases ids@.len() - i,
    {
        if ids[i] == *s {
            proof {
                assert(view_strs(ids@)[i as int] == s@);
            }
            return true;
        }
        i += 1;
    }
    proof {
        assert forall|j: int| 0 <= j < view_strs(ids@).len() implies #[trigger] view_strs(
            ids@,
        )[j] != s@ by {
            assert(view_strs(ids@)[j] == ids@[j]@);
        }
    }
    false
}

/// A key-unique mapping from third-party GIF id to saved record, so that a
/// caller can look records up by id without worrying about duplicates.
#[derive(Debug)]
pub struct GifsById {
    /// The entries; no two share a `giphy_id`.
    pub entries: Vec<SavedGif>,
}

/// The mapping a run of records stands for, keyed by third-party id; a later
/// record wins a shared key.
pub open spec fn map_of(s: Seq<SavedGifV>) -> Map<Seq<char>, SavedGifV>
    decreases s.len(),
{
    if s.len() == 0 {
        Map::empty()
    } else {
        map_of(s.drop_last()).insert(s.last().giphy_id, s.last())
    }
}

/// A key stands in the mapping of `s` exactly when some record carries it as
/// its third-party id, and then the mapped value is such a record.
proof fn lemma_map_of_key(s: Seq<SavedGifV>, k: Seq<char>)
    ensures
        map_of(s).contains_key(k) <==> exists|i: int|
            0 <= i < s.len() && (#[trigger] s[i]).giphy_id == k,
        map_of(s).contains_key(k) ==> exists|i: int|
            0 <= i < s.len() && (#[trigger] s[i]).giphy_id == k && s[i] == map_of(s)[k],
    decreases s.len(),
{
    if s.len() > 0 {
        let prefix = s.drop_last();
        lemma_map_of_key(prefix, k);
        if s.last().giphy_id == k {
            assert(s[s.len() - 1] == s.last());
        } else {
            if map_of(prefix).contains_key(k) {
                let i = choose|i: int|
                    0 <= i < prefix.len() && (#[trigger] prefix[i]).giphy_id == k && prefix[i]
                        == map_of(prefix)[k];
                assert(s[i] == prefix[i]);
            }
            if exists|i: int| 0 <= i < s.len() && (#[trigger] s[i]).giphy_id == k {
                let i = choose|i: int| 0 <= i < s.len() && (#[trigger] s[i]).giphy_id == k;
                assert(i < s.len() - 1);
                assert(prefix[i] == s[i]);
            }
        }
    }
}

impl View for GifsById {
    type V = Map<Seq<char>, SavedGifV>;

    open spec fn view(&self) -> Map<Seq<char>, SavedGifV> {
        map_of(view_rows(self.entries@))
    }
}

impl GifsById {
    /// No two entries share a third-party id, so each key names one record.
    pub open spec fn well_formed(&self) -> bool {
        forall|i: int, j: int|
            0 <= i < j < self.entries@.len() ==> (#[trigger] self.entries@[i])@.giphy_id != (
            #[trigger] self.entries@[j])@.giphy_id
    }

    /// An empty mapping.
    pub fn new() -> (r: GifsById)
        ensures
            r.well_formed(),
            r@ == Map::<Seq<char>, SavedGifV>::empty(),
            r.entries@.len() == 0,
    {
        GifsById { entries: Vec::new() }
    }

    /// Add a record under a third-party id not yet present.
    fn push_new(&mut self, g: SavedGif)
        requires
            old(self).well_formed(),
            !old(self)@.contains_key(g@.giphy_id),
        ensures
            final(self).well_formed(),
            final(self)@ == old(self)@.insert(g@.giphy_id, g@),
            final(self).entries@ == old(self).entries@.push(g),
    {
        proof {
            lemma_map_of_key(view_rows(self.entries@), g@.giphy_id);
        }
        let ghost before = self.entries@;
        self.entries.push(g);
        proof {
            broadcast use vstd::prelude::Seq::lemma_push_map_commute;

            assert(view_rows(self.entries@).drop_last() =~= view_rows(before));
            assert(view_rows(self.entries@).last() == self.entries@[before.len() as int]@);
            assert forall|i: int| 0 <= i < before.len() implies (#[trigger] self.entries@[i])@.giphy_id
                != g@.giphy_id by {
                assert(view_rows(before)[i] == before[i]@);
                assert(self.entries@[i] == before[i]);
            }
        }
    }

    /// How many records the mapping holds.
    pub fn len(&self) -> (n: usize)
        ensures
            n == self.entries@.len(),
    {
        self.entries.len()
    }

    /// Look a record up by its third-party id.
    pub fn get(&self, id: &String) -> (r: Option<&SavedGif>)
        requires
            self.well_formed(),
        ensures
            r matches Some(g) ==> self@.contains_key(id@) && g@ == self@[id@],
            r is None ==> !self@.contains_key(id@),
    {
        let ghost s = view_rows(self.entries@);
        let mut i: usize = 0;
        while i < self.entries.len()
            invariant
                i <= self.entries@.len(),
                self.well_formed(),
                s == view_rows(self.entries@),
                forall|j: int| 0 <= j < i ==> (#[trigger] self.entries@[j])@.giphy_id != id@,
            decreases self.entries@.len() - i,
        {
            if self.entries[i].giphy_id == *id {
                proof {
                    lemma_map_of_key(s, id@);
                    assert(s[i as int].giphy_id == id@);
                    let j = choose|j: int|
                        0 <= j < s.len() && (#[trigger] s[j]).giphy_id == id@ && s[j] == map_of(
                            s,
                        )[id@];
                    assert(j == i as int);
                }
                return Some(&self.entries[i]);
            }
            i += 1;
        }
        proof {
            lemma_map_of_key(s, id@);
            assert forall|j: int| 0 <= j < s.len() implies (#[trigger] s[j]).giphy_id != id@ by {
                assert(s[j] == self.entries@[j]@);
            }
        }
        None
    }

    /// Does the mapping hold a record under the given third-party id?
    pub fn contains_id(&self, id: &String) -> (r: bool)
        requires
            self.well_formed(),
        ensures
            r == self@.contains_key(id@),
    {
        self.get(id).is_some()
    }
}

} // verus!
