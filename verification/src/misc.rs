//! Miscellaneous items (maps, fonts, HUDs) injected beside skins.
use vstd::prelude::*;
use crate::text::{str_eq, push_str, push_char, write_dec, views};

verus! {

/// An uploaded miscellaneous item.
#[derive(Debug, PartialEq)]
pub struct MiscItem {
    pub id: String,
    pub name: String,
    pub item_type: String,
    /// The item's archive, relative to the items folder.
    pub skin_file_path: String,
}

impl Clone for MiscItem {
    fn clone(&self) -> (r: Self)
        ensures
            r == *self,
    {
        MiscItem {
            id: self.id.clone(),
            name: self.name.clone(),
            item_type: self.item_type.clone(),
            skin_file_path: self.skin_file_path.clone(),
        }
    }
}

/// A request to upload one item.
#[derive(Debug, PartialEq)]
pub struct UploadMiscItemRequest {
    pub name: String,
    /// `"map"`, `"font"`, `"hud"` or `"misc"`.
    pub item_type: String,
}

/// Whether `char::is_alphanumeric` holds of a character (Unicode alphabetic or numeric).
pub uninterp spec fn is_alphanumeric_char(c: char) -> bool;

/// `char::is_alphanumeric`; the result is named `is_alphanumeric_char`.
#[verifier::external_body]
fn is_alphanumeric(c: char) -> (r: bool)
    ensures
        r == is_alphanumeric_char(c),
{
    c.is_alphanumeric()
}

/// The characters kept in a file name.
pub open spec fn file_name_char(c: char) -> bool {
    is_alphanumeric_char(c) || c == '_' || c == '-'
}

/// An item name made safe for a file name: other characters become `_`.
pub open spec fn safe_file_name(name: Seq<char>) -> Seq<char> {
    name.map_values(|c: char| if file_name_char(c) { c } else { '_' })
}

/// Makes an item name safe for a file name.
pub fn sanitize_name(name: &str) -> (r: String)
    ensures
        r@ == safe_file_name(name@),
{
    let n = name.unicode_len();
    let mut out = String::new();
    let mut i: usize = 0;
    while i < n
        invariant
            0 <= i <= n,
            n == name@.len(),
            out@ == safe_file_name(name@.take(i as int)),
        decreases n - i,
    {
        let c = name.get_char(i);
        let keep = is_alphanumeric(c) || c == '_' || c == '-';
        push_char(&mut out, if keep { c } else { '_' });
        proof {
            assert(name@.take(i as int + 1) =~= name@.take(i as int).push(c));
            assert(out@ =~= safe_file_name(name@.take(i as int + 1)));
        }
        i = i + 1;
    }
    proof {
        assert(name@.take(i as int) =~= name@);
    }
    out
}

/// The characters kept when an uploaded file's name becomes an item name.
pub open spec fn item_name_char(c: char) -> bool {
    is_alphanumeric_char(c) || c == '_' || c == '-' || c == ' '
}

/// A file name reduced to the characters an item name keeps.
pub open spec fn item_name_of(stem: Seq<char>) -> Seq<char>
    decreases stem.len(),
{
    if stem.len() == 0 {
        seq![]
    } else if item_name_char(stem.last()) {
        item_name_of(stem.drop_last()).push(stem.last())
    } else {
        item_name_of(stem.drop_last())
    }
}

/// Reduces a file name to the characters an item name keeps.
pub fn item_name_from_stem(stem: &str) -> (r: String)
    ensures
        r@ == item_name_of(stem@),
{
    let n = stem.unicode_len();
    let mut out = String::new();
    let mut i: usize = 0;
    while i < n
        invariant
            0 <= i <= n,
            n == stem@.len(),
            out@ == item_name_of(stem@.take(i as int)),
        decreases n - i,
    {
        let c = stem.get_char(i);
        proof {
            assert(stem@.take(i as int + 1).drop_last() =~= stem@.take(i as int));
            assert(stem@.take(i as int + 1).last() == c);
        }
        if is_alphanumeric(c) || c == '_' || c == '-' || c == ' ' {
            push_char(&mut out, c);
        }
        i = i + 1;
    }
    proof {
        assert(stem@.take(i as int) =~= stem@);
    }
    out
}

/// The file name of an item: `"{type}_{name}.skin_file"`.
pub open spec fn item_file_name(item_type: Seq<char>, name: Seq<char>) -> Seq<char> {
    item_type + "_"@ + name + ".skin_file"@
}

/// The item an upload creates at time `now_ms`: id `"{type}_{now}"`, archive named
/// after the type and the sanitized name.
pub fn new_misc_item(request: &UploadMiscItemRequest, now_ms: u64) -> (item: MiscItem)
    ensures
        item.id@ == request.item_type@ + "_"@ + crate::text::dec(now_ms as nat),
        item.name@ == request.name@,
        item.item_type@ == request.item_type@,
        item.skin_file_path@ == item_file_name(request.item_type@, safe_file_name(request.name@)),
{
    let mut id = request.item_type.clone();
    push_str(&mut id, "_");
    write_dec(&mut id, now_ms);
    let safe = sanitize_name(request.name.as_str());
    let mut file = request.item_type.clone();
    push_str(&mut file, "_");
    push_str(&mut file, safe.as_str());
    push_str(&mut file, ".skin_file");
    MiscItem { id, name: request.name.clone(), item_type: request.item_type.clone(), skin_file_path: file }
}

/// A stem with each space replaced by `_`.
pub open spec fn spaces_to_underscores(s: Seq<char>) -> Seq<char> {
    s.map_values(|c: char| if c == ' ' { '_' } else { c })
}

/// The item created for one of several uploaded files, from the file's stem at time `now_ms`:
/// id `"{type}_{stem with _ for spaces}_{now}"`, name the stem's kept characters.
pub fn new_misc_item_from_file(item_type: &str, file_stem: &str, now_ms: u64) -> (item: MiscItem)
    ensures
        item.id@ == item_type@ + "_"@ + spaces_to_underscores(file_stem@) + "_"@ + crate::text::dec(now_ms as nat),
        item.name@ == item_name_of(file_stem@),
        item.item_type@ == item_type@,
        item.skin_file_path@ == item_file_name(item_type@, item_name_of(file_stem@)),
{
    let n = file_stem.unicode_len();
    let mut id = String::from_str(item_type);
    push_str(&mut id, "_");
    let ghost prefix = id@;
    let mut i: usize = 0;
    while i < n
        invariant
            0 <= i <= n,
            n == file_stem@.len(),
            id@ == prefix + spaces_to_underscores(file_stem@.take(i as int)),
        decreases n - i,
    {
        let c = file_stem.get_char(i);
        push_char(&mut id, if c == ' ' { '_' } else { c });
        proof {
            assert(file_stem@.take(i as int + 1) =~= file_stem@.take(i as int).push(c));
            assert(id@ =~= prefix + spaces_to_underscores(file_stem@.take(i as int + 1)));
        }
        i = i + 1;
    }
    proof {
        assert(file_stem@.take(i as int) =~= file_stem@);
    }
    push_str(&mut id, "_");
    write_dec(&mut id, now_ms);
    let name = item_name_from_stem(file_stem);
    let mut file = String::from_str(item_type);
    push_str(&mut file, "_");
    push_str(&mut file, name.as_str());
    push_str(&mut file, ".skin_file");
    MiscItem { id, name, item_type: String::from_str(item_type), skin_file_path: file }
}

/// The first item with this id.
pub open spec fn item_with_id(items: Seq<MiscItem>, id: Seq<char>) -> Option<MiscItem>
    decreases items.len(),
{
    if items.len() == 0 {
        None
    } else if items[0].id@ == id {
        Some(items[0])
    } else {
        item_with_id(items.drop_first(), id)
    }
}

/// The items whose id is not `id`, in order.
pub open spec fn items_without(items: Seq<MiscItem>, id: Seq<char>) -> Seq<MiscItem>
    decreases items.len(),
{
    if items.len() == 0 {
        seq![]
    } else if items.last().id@ != id {
        items_without(items.drop_last(), id).push(items.last())
    } else {
        items_without(items.drop_last(), id)
    }
}

/// Deletes the item with this id (every entry with it); returns the first such
/// entry (whose archive the caller removes), or says the item is unknown.
pub fn delete_misc_item(items: &mut Vec<MiscItem>, item_id: &str) -> (r: Result<MiscItem, String>)
    ensures
        match r {
            Ok(removed) => item_with_id(old(items)@, item_id@) == Some(removed)
                && final(items)@ == items_without(old(items)@, item_id@),
            Err(e) => item_with_id(old(items)@, item_id@) is None && e@ == "Misc item not found"@
                && final(items)@ == old(items)@,
        },
{
    let mut i: usize = 0;
    proof {
        assert(items@.skip(0) =~= items@);
    }
    while i < items.len() && !str_eq(items[i].id.as_str(), item_id)
        invariant
            0 <= i <= items.len(),
            item_with_id(items@, item_id@) == item_with_id(items@.skip(i as int), item_id@),
        decreases items.len() - i,
    {
        proof {
            assert(items@.skip(i as int).drop_first() =~= items@.skip(i as int + 1));
            assert(items@.skip(i as int)[0] == items@[i as int]);
        }
        i = i + 1;
    }
    proof {
        if i < items.len() {
            assert(items@.skip(i as int)[0] == items@[i as int]);
        }
    }
    if i == items.len() {
        proof {
            assert(items@.skip(i as int).len() == 0);
        }
        return Err(String::from_str("Misc item not found"));
    }
    let removed = items[i].clone();
    let ghost orig = items@;
    let mut kept: Vec<MiscItem> = Vec::new();
    let mut j: usize = 0;
    while j < items.len()
        invariant
            0 <= j <= items.len(),
            items@ == orig,
            kept@ == items_without(orig.take(j as int), item_id@),
        decreases items.len() - j,
    {
        proof {
            assert(orig.take(j as int + 1).drop_last() =~= orig.take(j as int));
            assert(orig.take(j as int + 1).last() == orig[j as int]);
        }
        if !str_eq(items[j].id.as_str(), item_id) {
            kept.push(items[j].clone());
        }
        j = j + 1;
    }
    proof {
        assert(orig.take(j as int) =~= orig);
    }
    *items = kept;
    Ok(removed)
}

/// The font built into the application that a selection names: the rest of
/// `builtin-font-{name}` among fonts.
pub open spec fn builtin_font_suffix_of(selected_id: Seq<char>, item_type: Seq<char>) -> Option<Seq<char>> {
    if item_type == "font"@ && selected_id.len() >= 13 && selected_id.subrange(0, 13) == "builtin-font-"@ {
        Some(selected_id.subrange(13, selected_id.len() as int))
    } else {
        None
    }
}

/// Reads which built-in font a selection names, if it names one.
pub fn builtin_font_suffix(selected_id: &str, item_type: &str) -> (r: Option<String>)
    ensures
        match r {
            Some(s) => builtin_font_suffix_of(selected_id@, item_type@) == Some(s@),
            None => builtin_font_suffix_of(selected_id@, item_type@) is None,
        },
{
    proof {
        reveal_strlit("builtin-font-");
    }
    let n = selected_id.unicode_len();
    if str_eq(item_type, "font") && n >= 13 && str_eq(selected_id.substring_char(0, 13), "builtin-font-") {
        Some(String::from_str(selected_id.substring_char(13, n)))
    } else {
        None
    }
}

/// The item standing for a built-in font, whose archive was copied next to the uploaded items.
pub open spec fn builtin_font_item(selected_id: Seq<char>, suffix: Seq<char>, item_type: Seq<char>) -> (Seq<char>, Seq<char>, Seq<char>, Seq<char>) {
    (selected_id, suffix, item_type, "font_builtin_"@ + suffix + ".skin_file"@)
}

/// An item's id, name, type and archive.
pub open spec fn item_fields(m: MiscItem) -> (Seq<char>, Seq<char>, Seq<char>, Seq<char>) {
    (m.id@, m.name@, m.item_type@, m.skin_file_path@)
}

/// The uploaded items of `item_type` whose id is among `ids`, in upload order.
pub open spec fn matching_items(all: Seq<MiscItem>, item_type: Seq<char>, ids: Seq<Seq<char>>) -> Seq<(Seq<char>, Seq<char>, Seq<char>, Seq<char>)>
    decreases all.len(),
{
    if all.len() == 0 {
        seq![]
    } else {
        let prev = matching_items(all.drop_last(), item_type, ids);
        let m = all.last();
        if m.item_type@ == item_type && ids.contains(m.id@) { prev.push(item_fields(m)) } else { prev }
    }
}

/// What one selected id contributes: the built-in font where its archive was
/// found, else the uploaded item of that type with that id.
pub open spec fn selection_items(
    all: Seq<MiscItem>,
    item_type: Seq<char>,
    sid: Seq<char>,
    available_builtins: Seq<Seq<char>>,
) -> Seq<(Seq<char>, Seq<char>, Seq<char>, Seq<char>)> {
    match builtin_font_suffix_of(sid, item_type) {
        Some(suffix) => if available_builtins.contains(sid) {
            seq![builtin_font_item(sid, suffix, item_type)]
        } else {
            matching_items(all, item_type, seq![sid])
        },
        None => matching_items(all, item_type, seq![sid]),
    }
}

/// What a type's selection contributes, selected id by selected id.
pub open spec fn type_selection_items(
    all: Seq<MiscItem>,
    item_type: Seq<char>,
    prefix: Seq<Seq<char>>,
    available_builtins: Seq<Seq<char>>,
) -> Seq<(Seq<char>, Seq<char>, Seq<char>, Seq<char>)>
    decreases prefix.len(),
{
    if prefix.len() == 0 {
        seq![]
    } else {
        type_selection_items(all, item_type, prefix.drop_last(), available_builtins)
            + selection_items(all, item_type, prefix.last(), available_builtins)
    }
}

/// The selected items, type by type.
pub open spec fn selected_items_of(
    all: Seq<MiscItem>,
    selections: Seq<(Seq<char>, Seq<Seq<char>>)>,
    available_builtins: Seq<Seq<char>>,
) -> Seq<(Seq<char>, Seq<char>, Seq<char>, Seq<char>)>
    decreases selections.len(),
{
    if selections.len() == 0 {
        seq![]
    } else {
        let (t, ids) = selections.last();
        selected_items_of(all, selections.drop_last(), available_builtins)
            + type_selection_items(all, t, ids, available_builtins)
    }
}

/// The selections' characters.
pub open spec fn selection_views(s: Seq<(String, Vec<String>)>) -> Seq<(Seq<char>, Seq<Seq<char>>)> {
    s.map_values(|e: (String, Vec<String>)| (e.0@, views(e.1@)))
}

fn contains_str(v: &Vec<String>, s: &str) -> (r: bool)
    ensures
        r == views(v@).contains(s@),
{
    let mut i: usize = 0;
    while i < v.len()
        invariant
            0 <= i <= v.len(),
            forall|k: int| 0 <= k < i ==> v@[k]@ != s@,
        decreases v.len() - i,
    {
        if str_eq(v[i].as_str(), s) {
            assert(views(v@)[i as int] == s@);
            return true;
        }
        i = i + 1;
    }
    proof {
        if views(v@).contains(s@) {
            let k = choose|k: int| 0 <= k < views(v@).len() && views(v@)[k] == s@;
            assert(v@[k]@ == s@);
        }
    }
    false
}

fn push_matching(out: &mut Vec<MiscItem>, all: &Vec<MiscItem>, item_type: &str, ids: &Vec<String>)
    ensures
        final(out)@.map_values(|m: MiscItem| item_fields(m))
            == old(out)@.map_values(|m: MiscItem| item_fields(m)) + matching_items(all@, item_type@, views(ids@)),
{
    let ghost start = old(out)@.map_values(|m: MiscItem| item_fields(m));
    let mut i: usize = 0;
    while i < all.len()
        invariant
            0 <= i <= all.len(),
            start == old(out)@.map_values(|m: MiscItem| item_fields(m)),
            out@.map_values(|m: MiscItem| item_fields(m)) == start + matching_items(all@.take(i as int), item_type@, views(ids@)),
        decreases all.len() - i,
    {
        let m = &all[i];
        proof {
            assert(all@.take(i as int + 1).drop_last() =~= all@.take(i as int));
            assert(all@.take(i as int + 1).last() == all@[i as int]);
        }
        if str_eq(m.item_type.as_str(), item_type) && contains_str(ids, m.id.as_str()) {
            let ghost before = out@;
            out.push(m.clone());
            proof {
                assert(out@.map_values(|m: MiscItem| item_fields(m)) =~= before.map_values(|m: MiscItem| item_fields(m)).push(item_fields(all@[i as int])));
            }
        }
        i = i + 1;
    }
    proof {
        assert(all@.take(i as int) =~= all@);
    }
}

/// Resolves the selected items: for each selected id of each type, the built-in
/// font (where the caller found its archive, `available_builtins`), else the
/// uploaded item of that type with that id. Each selected item comes once per
/// time it is selected.
pub fn select_misc_items(
    all: &Vec<MiscItem>,
    selections: &Vec<(String, Vec<String>)>,
    available_builtins: &Vec<String>,
) -> (r: Vec<MiscItem>)
    ensures
        r@.map_values(|m: MiscItem| item_fields(m)) == selected_items_of(all@, selection_views(selections@), views(available_builtins@)),
{
    let mut out: Vec<MiscItem> = Vec::new();
    let mut a: usize = 0;
    proof {
        assert(out@.map_values(|m: MiscItem| item_fields(m)) =~= Seq::<(Seq<char>, Seq<char>, Seq<char>, Seq<char>)>::empty());
    }
    while a < selections.len()
        invariant
            0 <= a <= selections.len(),
            out@.map_values(|m: MiscItem| item_fields(m)) == selected_items_of(all@, selection_views(selections@.take(a as int)), views(available_builtins@)),
        decreases selections.len() - a,
    {
        let item_type = &selections[a].0;
        let ids = &selections[a].1;
        let ghost base = out@.map_values(|m: MiscItem| item_fields(m));
        let mut b: usize = 0;
        while b < ids.len()
            invariant
                0 <= b <= ids.len(),
                a < selections.len(),
                item_type == &selections@[a as int].0,
                ids == &selections@[a as int].1,
                out@.map_values(|m: MiscItem| item_fields(m)) == base + type_selection_items(all@, item_type@, views(ids@).take(b as int), views(available_builtins@)),
            decreases ids.len() - b,
        {
            let sid = ids[b].as_str();
            let ghost before = out@.map_values(|m: MiscItem| item_fields(m));
            proof {
                assert(views(ids@).take(b as int + 1).drop_last() =~= views(ids@).take(b as int));
                assert(views(ids@).take(b as int + 1).last() == sid@);
            }
            let mut handled = false;
            if let Some(suffix) = builtin_font_suffix(sid, item_type.as_str()) {
                if contains_str(available_builtins, sid) {
                    let mut file = String::from_str("font_builtin_");
                    push_str(&mut file, suffix.as_str());
                    push_str(&mut file, ".skin_file");
                    let ghost old_out = out@;
                    out.push(MiscItem { id: String::from_str(sid), name: suffix, item_type: item_type.clone(), skin_file_path: file });
                    proof {
                        assert(out@.map_values(|m: MiscItem| item_fields(m)) =~= old_out.map_values(|m: MiscItem| item_fields(m)) + seq![builtin_font_item(sid@, suffix@, item_type@)]);
                    }
                    handled = true;
                }
            }
            if !handled {
                let one: Vec<String> = vec![String::from_str(sid)];
                proof {
                    assert(views(one@) =~= seq![sid@]);
                }
                push_matching(&mut out, all, item_type.as_str(), &one);
            }
            proof {
                assert(out@.map_values(|m: MiscItem| item_fields(m)) =~= before + selection_items(all@, item_type@, sid@, views(available_builtins@)));
            }
            b = b + 1;
        }
        proof {
            assert(views(ids@).take(b as int) =~= views(ids@));
            assert(selection_views(selections@.take(a as int + 1)).drop_last() =~= selection_views(selections@.take(a as int)));
            assert(selection_views(selections@.take(a as int + 1)).last() == (item_type@, views(ids@)));
        }
        a = a + 1;
    }
    proof {
        assert(selections@.take(a as int) =~= selections@);
    }
    out
}

} // verus!
