//! JSON objects as ordered lists of top-level fields. Each field holds its
//! key and the JSON text of its value; the text is produced and read at the
//! edge, where the object is encoded or decoded as a whole.
use vstd::prelude::*;

use crate::parser::first_index;
use crate::text::same_text;

verus! {

/// The views of a list of fields.
pub open spec fn field_views(v: Seq<(String, String)>) -> Seq<(Seq<char>, Seq<char>)> {
    v.map_values(|e: (String, String)| (e.0@, e.1@))
}

/// The positions of `fs` whose field has the key `key`.
pub open spec fn key_pred(fs: Seq<(Seq<char>, Seq<char>)>, key: Seq<char>) -> spec_fn(int) -> bool {
    |i: int| fs[i].0 == key
}

/// `fs` with the field `key` set to `value`: in place where the key is
/// there, else appended.
pub open spec fn put(fs: Seq<(Seq<char>, Seq<char>)>, key: Seq<char>, value: Seq<char>) -> Seq<
    (Seq<char>, Seq<char>),
> {
    match first_index(0, fs.len() as int, key_pred(fs, key)) {
        Some(i) => fs.update(i, (key, value)),
        None => fs.push((key, value)),
    }
}

/// `fs` with every field of `more` set in turn.
pub open spec fn put_all(fs: Seq<(Seq<char>, Seq<char>)>, more: Seq<(Seq<char>, Seq<char>)>) -> Seq<
    (Seq<char>, Seq<char>),
>
    decreases more.len(),
{
    if more.len() == 0 {
        fs
    } else {
        put_all(put(fs, more[0].0, more[0].1), more.drop_first())
    }
}

/// Sets the field `key` to `value`: in place where the key is there, else
/// appended.
pub fn put_field(fields: &mut Vec<(String, String)>, key: String, value: String)
    ensures
        field_views(final(fields)@) == put(field_views(old(fields)@), key@, value@),
{
    let ghost fs = field_views(fields@);
    let ghost k = key@;
    let ghost v = value@;
    let mut i: usize = 0;
    let mut found = false;
    while i < fields.len()
        invariant_except_break
            !found,
        invariant
            fs == field_views(fields@),
            k == key@,
            fs.len() == fields@.len(),
            i <= fields@.len(),
            first_index(0, fs.len() as int, key_pred(fs, k)) == first_index(
                i as int,
                fs.len() as int,
                key_pred(fs, k),
            ),
        ensures
            i <= fields@.len(),
            fs == field_views(fields@),
            found ==> i < fields@.len() && first_index(0, fs.len() as int, key_pred(fs, k))
                == Some(i as int),
            !found ==> first_index(0, fs.len() as int, key_pred(fs, k)) is None,
        decreases fields.len() - i,
    {
        let entry: &(String, String) = &fields[i];
        if same_text(entry.0.as_str(), key.as_str()) {
            proof {
                assert(fs[i as int].0 == k);
                assert(key_pred(fs, k)(i as int));
            }
            found = true;
            break;
        }
        i = i + 1;
    }
    if found {
        fields.set(i, (key, value));
        proof {
            assert(field_views(fields@) =~= fs.update(i as int, (k, v)));
        }
    } else {
        fields.push((key, value));
        proof {
            assert(field_views(fields@) =~= fs.push((k, v)));
        }
    }
}

/// Sets every field of `more` in turn.
pub fn put_fields(fields: &mut Vec<(String, String)>, more: &Vec<(String, String)>)
    ensures
        field_views(final(fields)@) == put_all(field_views(old(fields)@), field_views(more@)),
{
    let ghost start = field_views(fields@);
    let mut i: usize = 0;
    proof {
        assert(field_views(more@).skip(0) =~= field_views(more@));
    }
    while i < more.len()
        invariant
            i <= more@.len(),
            put_all(start, field_views(more@)) == put_all(
                field_views(fields@),
                field_views(more@).skip(i as int),
            ),
        decreases more.len() - i,
    {
        let key = more[i].0.clone();
        let value = more[i].1.clone();
        proof {
            let rest = field_views(more@).skip(i as int);
            assert(rest[0] == (key@, value@));
            assert(rest.drop_first() =~= field_views(more@).skip(i + 1));
        }
        put_field(fields, key, value);
        i = i + 1;
    }
    proof {
        assert(field_views(more@).skip(i as int) =~= Seq::<(Seq<char>, Seq<char>)>::empty());
    }
}

} // verus!
