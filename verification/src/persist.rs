//! Moving a whole store through its durable forms: store to relational file
//! bytes to transport text, and back. The master publish round trip falls
//! out of the codec contracts: decoding what was published yields a store
//! with exactly the same rows.

use crate::codec::{b64_bytes_of, b64_of, decode, encode};
use crate::dbfile::{db_articles, db_categories, db_image, Db, DbReader, DbRow};
use crate::store::{BlogsInfoDO, RecView, Store, StoreView};
use crate::StoreError;
use vstd::prelude::*;

verus! {

/// The store view a file image induces: each row becomes an article record,
/// each name a category.
pub open spec fn image_store_view(img: (Seq<DbRow>, Seq<Seq<char>>)) -> StoreView {
    StoreView {
        arts: img.0.map_values(
            |t: DbRow| RecView { path: t.0, postid: t.1, timestamp: t.2, deleted: t.3 },
        ),
        cats: img.1,
    }
}

/// An image decodes into a store exactly when its identifiers fit the
/// identifier type and its induced view satisfies the uniqueness invariant.
pub open spec fn image_ok(img: (Seq<DbRow>, Seq<Seq<char>>)) -> bool {
    &&& forall|k: int| 0 <= k < img.0.len() ==> i32::MIN <= (#[trigger] img.0[k]).1 <= i32::MAX
    &&& image_store_view(img).wf()
}

/// The file-image rows a store's articles denote.
pub open spec fn rows_of(sv: StoreView) -> Seq<DbRow> {
    sv.arts.map_values(|r: RecView| (r.path, r.postid, r.timestamp, r.deleted))
}

/// Stores with the same file-image rows hold the same articles.
proof fn lemma_rows_of_injective(a: StoreView, b: StoreView)
    requires
        rows_of(a) == rows_of(b),
    ensures
        a.arts =~= b.arts,
{
    assert(rows_of(a).len() == a.arts.len() && rows_of(b).len() == b.arts.len());
    assert forall|i: int| 0 <= i < a.arts.len() implies a.arts[i] == b.arts[i] by {
        assert(rows_of(a)[i] == rows_of(b)[i]);
        assert(a.arts[i].path == b.arts[i].path && a.arts[i].postid == b.arts[i].postid
            && a.arts[i].timestamp == b.arts[i].timestamp && a.arts[i].deleted
            == b.arts[i].deleted);
        assert(a.arts[i] =~= b.arts[i]);
    }
}

/// Serialize a store into relational file bytes: its rows and categories
/// become the two tables of a fresh database file. The bytes denote exactly
/// the store's contents.
pub fn store_to_bytes(store: &Store) -> (r: Result<Vec<u8>, StoreError>)
    ensures
        r matches Ok(b) ==> db_image(b@) == Some((rows_of(store@), store@.cats)),
        r matches Err(e) ==> e == StoreError::Storage,
{
    let mut db = match Db::create() {
        Ok(d) => d,
        Err(_) => {
            return Err(StoreError::Storage);
        },
    };
    let mut i: usize = 0;
    while i < store.len()
        invariant
            i <= store@.arts.len(),
            db_articles(db) =~= rows_of(store@).take(i as int),
            db_categories(db) == Seq::<Seq<char>>::empty(),
        decreases store@.arts.len() - i,
    {
        let row = store.row(i);
        match db.insert_article(row.blog_path.as_str(), row.postid as i64, row.timestamp, row.deleted) {
            Ok(()) => {},
            Err(_) => {
                return Err(StoreError::Storage);
            },
        }
        proof {
            assert(rows_of(store@)[i as int] == (
                store@.arts[i as int].path,
                store@.arts[i as int].postid,
                store@.arts[i as int].timestamp,
                store@.arts[i as int].deleted,
            ));
            assert(db_articles(db) =~= rows_of(store@).take(i + 1));
        }
        i += 1;
    }
    proof {
        assert(rows_of(store@).take(store@.arts.len() as int) =~= rows_of(store@));
    }
    let cats = store.get_local_categories();
    let mut j: usize = 0;
    while j < cats.len()
        invariant
            j <= cats@.len(),
            cats@.map_values(|c: String| c@) =~= store@.cats,
            db_articles(db) == rows_of(store@),
            db_categories(db) =~= store@.cats.take(j as int),
        decreases cats@.len() - j,
    {
        match db.insert_category(cats[j].as_str()) {
            Ok(()) => {},
            Err(_) => {
                return Err(StoreError::Storage);
            },
        }
        proof {
            assert(cats@[j as int]@ == store@.cats[j as int]);
            assert(db_categories(db) =~= store@.cats.take(j + 1));
        }
        j += 1;
    }
    proof {
        assert(store@.cats.take(store@.cats.len() as int) =~= store@.cats);
    }
    match db.to_bytes() {
        Ok(b) => Ok(b),
        Err(_) => Err(StoreError::Storage),
    }
}

/// Serialize a store into transport text: its file bytes, base64-encoded.
/// The text denotes exactly the store's contents.
pub fn encode_store(store: &Store) -> (r: Result<String, StoreError>)
    ensures
        r matches Ok(text) ==> db_image(b64_bytes_of(text@)) == Some(
            (rows_of(store@), store@.cats),
        ) && text@ == b64_of(b64_bytes_of(text@)),
        r matches Err(e) ==> e == StoreError::Storage,
{
    let bytes = match store_to_bytes(store) {
        Ok(b) => b,
        Err(e) => {
            return Err(e);
        },
    };
    Ok(encode(&bytes))
}

/// Deserialize relational file bytes back into a store, validating the
/// store's uniqueness invariant. On success the result holds exactly what
/// the bytes denote; the corruption error comes exactly of a readable
/// image whose rows break that invariant or overflow the identifier type,
/// never of one that is sound; every other failure is the storage layer's.
pub fn store_from_bytes(bytes: &Vec<u8>) -> (r: Result<Store, StoreError>)
    ensures
        r matches Ok(st) ==> st@.wf() && db_image(bytes@) == Some((rows_of(st@), st@.cats)),
        r matches Err(e) ==> (e == StoreError::Storage || e == StoreError::Corrupt),
        (r matches Err(e) && e == StoreError::Corrupt) ==> (db_image(bytes@) matches Some(img)
            && !image_ok(img)),
        (db_image(bytes@) matches Some(img) && image_ok(img)) ==> (match r {
            Err(e) => e != StoreError::Corrupt,
            _ => true,
        }),
{
    let db = match DbReader::from_bytes(bytes) {
        Ok(d) => d,
        Err(_) => {
            return Err(StoreError::Storage);
        },
    };
    let raw_articles = match db.read_articles() {
        Ok(v) => v,
        Err(_) => {
            return Err(StoreError::Storage);
        },
    };
    let raw_categories = match db.read_categories() {
        Ok(v) => v,
        Err(_) => {
            return Err(StoreError::Storage);
        },
    };
    let ghost img = db_image(bytes@)->Some_0;
    proof {
        assert(img.0 == raw_articles@.map_values(
            |t: (String, i64, i64, bool)| (t.0@, t.1 as int, t.2 as int, t.3),
        ));
        assert(img.1 == raw_categories@.map_values(|c: String| c@));
    }
    let mut articles: Vec<BlogsInfoDO> = Vec::new();
    let mut i: usize = 0;
    while i < raw_articles.len()
        invariant
            i <= raw_articles@.len(),
            articles@.len() == i,
            db_image(bytes@) == Some(img),
            img.0 == raw_articles@.map_values(
                |t: (String, i64, i64, bool)| (t.0@, t.1 as int, t.2 as int, t.3),
            ),
            img.1 == raw_categories@.map_values(|c: String| c@),
            forall|k: int|
                0 <= k < i ==> (#[trigger] articles@[k])@ == (RecView {
                    path: raw_articles@[k].0@,
                    postid: raw_articles@[k].1 as int,
                    timestamp: raw_articles@[k].2 as int,
                    deleted: raw_articles@[k].3,
                }),
            forall|k: int|
                0 <= k < i ==> i32::MIN <= (#[trigger] raw_articles@[k]).1 <= i32::MAX,
        decreases raw_articles@.len() - i,
    {
        let (path, postid, timestamp, deleted) = {
            let t = &raw_articles[i];
            (t.0.clone(), t.1, t.2, t.3)
        };
        if postid < i32::MIN as i64 || postid > i32::MAX as i64 {
            proof {
                assert(img.0[i as int].1 == raw_articles@[i as int].1 as int);
                assert(!image_ok(img));
            }
            return Err(StoreError::Corrupt);
        }
        articles.push(
            BlogsInfoDO { blog_path: path, postid: postid as i32, timestamp, deleted },
        );
        i += 1;
    }
    proof {
        assert(image_store_view(img).arts =~= articles@.map_values(|b: BlogsInfoDO| b@));
        assert(image_store_view(img).cats == raw_categories@.map_values(|c: String| c@));
    }
    match Store::from_rows(articles, raw_categories) {
        Ok(st) => {
            proof {
                assert(rows_of(st@) =~= raw_articles@.map_values(
                    |t: (String, i64, i64, bool)| (t.0@, t.1 as int, t.2 as int, t.3),
                ));
                assert(st@.cats =~= raw_categories@.map_values(|c: String| c@));
            }
            Ok(st)
        },
        Err(_) => {
            proof {
                assert(image_store_view(img) =~= StoreView {
                    arts: articles@.map_values(|b: BlogsInfoDO| b@),
                    cats: raw_categories@.map_values(|c: String| c@),
                });
                assert(!image_ok(img));
            }
            Err(StoreError::Corrupt)
        },
    }
}

/// Deserialize transport text back into a store, validating the store's
/// uniqueness invariant. On success the result holds exactly what the text
/// denotes; the encoding error comes exactly of text that encodes no byte
/// sequence, and the corruption error exactly of a readable image whose
/// rows break the invariant or overflow the identifier type.
pub fn decode_store(text: &str) -> (r: Result<Store, StoreError>)
    ensures
        r matches Ok(st) ==> st@.wf() && db_image(b64_bytes_of(text@)) == Some(
            (rows_of(st@), st@.cats),
        ),
        r matches Err(e) ==> (e == StoreError::Encoding || e == StoreError::Storage || e
            == StoreError::Corrupt),
        (r matches Err(e) && e == StoreError::Encoding) <==> !(exists|b: Seq<u8>|
            text@ == b64_of(b)),
        (r matches Err(e) && e == StoreError::Corrupt) ==> (db_image(b64_bytes_of(text@)) matches
            Some(img) && !image_ok(img)),
        (db_image(b64_bytes_of(text@)) matches Some(img) && image_ok(img) && (exists|b: Seq<u8>|
            text@ == b64_of(b))) ==> (match r {
            Err(e) => e != StoreError::Corrupt,
            _ => true,
        }),
{
    let bytes = match decode(text) {
        Ok(b) => b,
        Err(_) => {
            return Err(StoreError::Encoding);
        },
    };
    match store_from_bytes(&bytes) {
        Ok(st) => Ok(st),
        Err(StoreError::Corrupt) => Err(StoreError::Corrupt),
        Err(_) => Err(StoreError::Storage),
    }
}

/// The master publish round trip: serializing a well-formed store and
/// decoding the result yields a store with exactly the same rows and
/// categories, so in particular the same set of live records. Only the
/// embedded storage layer can fail; the decode side's own rejections are
/// provably unreachable on a published store.
pub fn master_round_trip(store: &Store) -> (r: Result<Store, StoreError>)
    requires
        store@.wf(),
    ensures
        r matches Ok(st) ==> st@.arts =~= store@.arts && st@.cats =~= store@.cats,
        r matches Err(e) ==> e == StoreError::Storage,
{
    let text = match encode_store(store) {
        Ok(t) => t,
        Err(e) => {
            return Err(e);
        },
    };
    proof {
        // The published image is sound: its identifiers fit the identifier
        // type and its induced view is the store's own, which is well
        // formed — so decoding cannot reject it as corrupt, and the text
        // is an encoding, so not as malformed either.
        store.lemma_view_ranges();
        let img = (rows_of(store@), store@.cats);
        assert forall|k: int|
            0 <= k < img.0.len() implies i32::MIN <= (#[trigger] img.0[k]).1 <= i32::MAX by {
            assert(img.0[k] == rows_of(store@)[k]);
            assert(rows_of(store@)[k].1 == store@.arts[k].postid);
        }
        assert(image_store_view(img).arts =~= store@.arts);
        assert(image_store_view(img).cats == store@.cats);
        assert forall|i: int, j: int|
            0 <= i < j < image_store_view(img).arts.len() && !image_store_view(
                img,
            ).arts[i].deleted && !image_store_view(img).arts[j].deleted implies image_store_view(
            img,
        ).arts[i].path != image_store_view(img).arts[j].path && image_store_view(
            img,
        ).arts[i].postid != image_store_view(img).arts[j].postid by {
            assert(image_store_view(img).arts[i] == store@.arts[i]);
            assert(image_store_view(img).arts[j] == store@.arts[j]);
        }
        assert forall|i: int, j: int|
            0 <= i < j < image_store_view(img).cats.len() implies image_store_view(
            img,
        ).cats[i] != image_store_view(img).cats[j] by {
            assert(image_store_view(img).cats[i] == store@.cats[i]);
            assert(image_store_view(img).cats[j] == store@.cats[j]);
        }
        assert(image_store_view(img).wf());
        assert(image_ok(img));
    }
    match decode_store(text.as_str()) {
        Ok(st) => {
            proof {
                assert(rows_of(st@) == rows_of(store@));
                lemma_rows_of_injective(st@, store@);
            }
            Ok(st)
        },
        Err(e) => {
            proof {
                assert(exists|b: Seq<u8>| text@ == b64_of(b)) by {
                    assert(text@ == b64_of(b64_bytes_of(text@)));
                }
                assert(e != StoreError::Encoding);
                assert(e != StoreError::Corrupt);
            }
            Err(e)
        },
    }
}

} // verus!
