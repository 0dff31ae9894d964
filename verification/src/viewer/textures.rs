//! The texture browser of the model viewer.

use vstd::prelude::*;
use vstd::utf8::{encode_scalar, encode_utf8};

use crate::folds::lemma_take_next;
use crate::names::{in_order, lemma_sorted_names, sort_names, sorted_names, views};
use crate::paths::{join_path, joined_path, path_stem, path_stem_of};
use crate::text::{concat, decimal, decimal_digits, join, joined, same, slice_string, to_chars};

verus! {

/// Textures side by side.
pub const COLS: usize = 2;

/// Rows on the panel.
pub const ROWS: usize = 4;

/// The number of bytes of a character in UTF-8.
pub open spec fn width(c: char) -> nat {
    if c as u32 <= 0x7f {
        1
    } else if c as u32 <= 0x7ff {
        2
    } else if c as u32 <= 0xffff {
        3
    } else {
        4
    }
}

pub open spec fn width_all(s: Seq<char>) -> nat
    decreases s.len(),
{
    if s.len() == 0 {
        0
    } else {
        width_all(s.drop_last()) + width(s.last())
    }
}

/// The longest front of `s` that `n` bytes hold.
pub open spec fn fitting(s: Seq<char>, n: nat) -> Seq<char>
    decreases s.len(),
{
    if width_all(s) <= n || s.len() == 0 {
        s
    } else {
        fitting(s.drop_last(), n)
    }
}

/// A name that fits under a texture: up to 16 bytes as it is, else its first 15
/// and an ellipsis.
pub open spec fn short_of(s: Seq<char>) -> Seq<char> {
    if width_all(s) > 16 {
        fitting(s, 15) + "…"@
    } else {
        s
    }
}

proof fn lemma_width_grows(s: Seq<char>, i: int)
    requires
        0 <= i <= s.len(),
    ensures
        width_all(s.take(i)) <= width_all(s),
    decreases s.len() - i,
{
    if i < s.len() {
        lemma_width_grows(s, i + 1);
        lemma_take_next(s, i);
    } else {
        assert(s.take(i) =~= s);
    }
}

proof fn lemma_fitting(s: Seq<char>, n: nat, i: int)
    requires
        0 <= i < s.len(),
        width_all(s.take(i)) <= n,
        width_all(s.take(i + 1)) > n,
    ensures
        fitting(s, n) == s.take(i),
    decreases s.len(),
{
    lemma_width_grows(s, i + 1);
    if s.len() == i + 1 {
        assert(s.take(i + 1) =~= s);
        assert(s.drop_last() =~= s.take(i));
        assert(fitting(s.take(i), n) == s.take(i));
    } else {
        let front = s.drop_last();
        assert(front.take(i) =~= s.take(i));
        assert(front.take(i + 1) =~= s.take(i + 1));
        lemma_fitting(front, n, i);
    }
}

fn char_width(c: char) -> (r: usize)
    ensures
        r == width(c),
        1 <= r <= 4,
{
    let code: u32 = c as u32;
    if code <= 0x7f {
        1
    } else if code <= 0x7ff {
        2
    } else if code <= 0xffff {
        3
    } else {
        4
    }
}

/// Makes a name fit under a texture.
pub fn shorten(s: &str) -> (r: String)
    ensures
        r@ == short_of(s@),
{
    let x = to_chars(s);
    let mut i: usize = 0;
    let mut total: usize = 0;
    let mut fits: usize = 0;
    assert(s@.take(0) =~= Seq::<char>::empty());
    while i < x.len() && total <= 16
        invariant
            x@ == s@,
            i <= x.len(),
            total == width_all(s@.take(i as int)),
            total <= 20,
            fits <= i,
            width_all(s@.take(fits as int)) <= 15,
            fits < i ==> width_all(s@.take(fits + 1)) > 15,
            fits == i ==> total <= 15,
        decreases x.len() - i,
    {
        proof {
            lemma_take_next(s@, i as int);
        }
        total = total + char_width(x[i]);
        if total <= 15 {
            proof {
                if fits < i {
                    assert(s@.take(i + 1).take(fits + 1) =~= s@.take(fits + 1));
                    lemma_width_grows(s@.take(i + 1), fits + 1);
                }
            }
            fits = i + 1;
        } else if fits == i {
            assert(width_all(s@.take(fits + 1)) > 15);
        }
        i = i + 1;
    }
    if total > 16 {
        proof {
            lemma_width_grows(s@, i as int);
            lemma_fitting(s@, 15, fits as int);
        }
        let front = slice_string(&x, 0, fits);
        assert(front@ =~= s@.take(fits as int));
        concat(front.as_str(), "…")
    } else {
        assert(s@.take(i as int) =~= s@);
        s.to_string()
    }
}

/// A short name holds at most 18 bytes: 15 of the name and 3 of the ellipsis.
pub proof fn law_short_is_short(s: Seq<char>)
    ensures
        width_all(short_of(s)) <= 18,
{
    reveal_strlit("…");
    if width_all(s) > 16 {
        lemma_fitting_fits(s, 15);
        let front = fitting(s, 15);
        let r = front + "…"@;
        assert(r.drop_last() =~= front);
        assert(r.last() == '…');
    }
}

proof fn lemma_fitting_fits(s: Seq<char>, n: nat)
    ensures
        width_all(fitting(s, n)) <= n,
    decreases s.len(),
{
    if width_all(s) > n && s.len() > 0 {
        lemma_fitting_fits(s.drop_last(), n);
    }
}

/// A use of a texture: the model, the material and the slot that name it.
#[derive(Clone, Debug)]
pub struct SlotUse {
    pub model: String,
    pub material: String,
    pub slot: String,
    pub texture: String,
}

/// A character of an extension: a dot or a letter from A to Z.
pub open spec fn suffix_char(c: char) -> bool {
    c == '.' || ('a' <= c && c <= 'z') || ('A' <= c && c <= 'Z')
}

/// A texture's name without the dots and letters at its end.
pub open spec fn bare(s: Seq<char>) -> Seq<char>
    decreases s.len(),
{
    if s.len() > 0 && suffix_char(s.last()) {
        bare(s.drop_last())
    } else {
        s
    }
}

fn bare_name(s: &str) -> (r: String)
    ensures
        r@ == bare(s@),
{
    let x = to_chars(s);
    let mut n: usize = x.len();
    assert(s@.take(n as int) =~= s@);
    while n > 0
        invariant
            x@ == s@,
            n <= x.len(),
            bare(s@) == bare(s@.take(n as int)),
        ensures
            bare(s@) == s@.take(n as int),
        decreases n,
    {
        let c: char = x[n - 1];
        proof {
            assert(s@.take(n as int).last() == c);
            assert(s@.take(n as int).drop_last() =~= s@.take(n - 1));
        }
        if !(c == '.' || ('a' <= c && c <= 'z') || ('A' <= c && c <= 'Z')) {
            break;
        }
        n = n - 1;
    }
    let r = slice_string(&x, 0, n);
    assert(r@ =~= s@.take(n as int));
    r
}

/// The use speaks of the texture of a name.
pub open spec fn names_texture(u: SlotUse, name: Seq<char>) -> bool {
    bare(u.texture@) == name || u.texture@ == name
}

pub open spec fn use_label(u: SlotUse) -> Seq<char> {
    u.model@ + "/"@ + u.material@ + "/"@ + u.slot@
}

/// The first use of a texture.
pub open spec fn slot_of(uses: Seq<SlotUse>, name: Seq<char>) -> Option<Seq<char>>
    decreases uses.len(),
{
    if uses.len() == 0 {
        None
    } else if names_texture(uses[0], name) {
        Some(use_label(uses[0]))
    } else {
        slot_of(uses.drop_first(), name)
    }
}

fn find_slot(uses: &Vec<SlotUse>, name: &str) -> (r: Option<String>)
    ensures
        match (r, slot_of(uses@, name@)) {
            (Some(s), Some(l)) => s@ == l,
            (None, None) => true,
            _ => false,
        },
{
    let mut i: usize = 0;
    assert(uses@.skip(0) =~= uses@);
    while i < uses.len()
        invariant
            i <= uses.len(),
            slot_of(uses@, name@) == slot_of(uses@.skip(i as int), name@),
        decreases uses.len() - i,
    {
        assert(uses@.skip(i as int)[0] == uses@[i as int]);
        let u = &uses[i];
        let key = bare_name(u.texture.as_str());
        if same(key.as_str(), name) || same(u.texture.as_str(), name) {
            let mut label = concat(u.model.as_str(), "/");
            label.append(u.material.as_str());
            label.append("/");
            label.append(u.slot.as_str());
            return Some(label);
        }
        assert(uses@.skip(i as int).drop_first() =~= uses@.skip(i + 1));
        i = i + 1;
    }
    None
}

/// A texture in the browser.
#[derive(Clone, Debug)]
pub struct TextureEntry {
    pub name: String,
    pub short: String,
    /// The number of the image among those of its model.
    pub image: usize,
    pub slot: Option<String>,
}

/// The use that a texture is listed with: that of its stem, else of its name.
pub open spec fn listed_slot(uses: Seq<SlotUse>, name: Seq<char>) -> Option<Seq<char>> {
    match slot_of(uses, path_stem_of(name)) {
        Some(l) => Some(l),
        None => slot_of(uses, name),
    }
}

/// `e` is the entry of a texture.
pub open spec fn is_entry(e: TextureEntry, name: Seq<char>, image: nat, uses: Seq<SlotUse>) -> bool {
    &&& e.name@ == name
    &&& e.short@ == short_of(path_stem_of(name))
    &&& e.image == image
    &&& match (e.slot, listed_slot(uses, name)) {
        (Some(s), Some(l)) => s@ == l,
        (None, None) => true,
        _ => false,
    }
}

fn entry(name: &str, image: usize, uses: &Vec<SlotUse>) -> (r: TextureEntry)
    ensures
        is_entry(r, name@, image as nat, uses@),
{
    let stem = path_stem(name);
    let slot = match find_slot(uses, stem.as_str()) {
        Some(l) => Some(l),
        None => find_slot(uses, name),
    };
    TextureEntry { name: name.to_string(), short: shorten(stem.as_str()), image, slot }
}

/// The name of an image in a file: its own, or its number.
pub open spec fn image_name(name: Option<String>, index: nat) -> Seq<char> {
    match name {
        Some(n) => n@,
        None => "image_"@ + decimal_digits(index),
    }
}

/// The entries of the images of a glTF model, in their order.
pub fn gltf_entries(images: &Vec<Option<String>>, uses: &Vec<SlotUse>) -> (r: Vec<TextureEntry>)
    ensures
        r@.len() == images@.len(),
        forall|i: int|
            0 <= i < r@.len() ==> is_entry(
                #[trigger] r@[i],
                image_name(images@[i], i as nat),
                i as nat,
                uses@,
            ),
{
    let mut r: Vec<TextureEntry> = Vec::new();
    let mut i: usize = 0;
    while i < images.len()
        invariant
            i <= images.len(),
            r@.len() == i,
            forall|j: int|
                0 <= j < i ==> is_entry(
                    #[trigger] r@[j],
                    image_name(images@[j], j as nat),
                    j as nat,
                    uses@,
                ),
        decreases images.len() - i,
    {
        let name = match &images[i] {
            Some(n) => n.clone(),
            None => {
                let n = decimal(i as u64);
                concat("image_", n.as_str())
            },
        };
        r.push(entry(name.as_str(), i, uses));
        i = i + 1;
    }
    r
}

/// The entries of the textures of a native model, sorted by name. The number of
/// an entry is its place in that order.
pub fn adm_entries(names: &Vec<String>, uses: &Vec<SlotUse>) -> (r: Vec<TextureEntry>)
    ensures
        ({
            let sorted = sorted_names(views(names@));
            &&& r@.len() == sorted.len()
            &&& forall|i: int|
                0 <= i < r@.len() ==> is_entry(#[trigger] r@[i], sorted[i], i as nat, uses@)
        }),
{
    let sorted = sort_names(names);
    let mut r: Vec<TextureEntry> = Vec::new();
    let mut i: usize = 0;
    while i < sorted.len()
        invariant
            i <= sorted.len(),
            views(sorted@) == sorted_names(views(names@)),
            r@.len() == i,
            forall|j: int|
                0 <= j < i ==> is_entry(#[trigger] r@[j], views(sorted@)[j], j as nat, uses@),
        decreases sorted.len() - i,
    {
        assert(views(sorted@)[i as int] == sorted@[i as int]@);
        r.push(entry(sorted[i].as_str(), i, uses));
        i = i + 1;
    }
    r
}

/// Whether the list can be made: some model is there, and all that there are
/// have been loaded.
pub fn browser_ready(gltf_loaded: &Vec<bool>, adm_loaded: &Vec<bool>) -> (r: bool)
    ensures
        r == (gltf_loaded@.len() + adm_loaded@.len() > 0 && !gltf_loaded@.contains(false)
            && !adm_loaded@.contains(false)),
{
    if gltf_loaded.len() == 0 && adm_loaded.len() == 0 {
        return false;
    }
    all_true(gltf_loaded) && all_true(adm_loaded)
}

fn all_true(v: &Vec<bool>) -> (r: bool)
    ensures
        r == !v@.contains(false),
{
    let mut i: usize = 0;
    while i < v.len()
        invariant
            i <= v.len(),
            forall|j: int| 0 <= j < i ==> v@[j],
        decreases v.len() - i,
    {
        if !v[i] {
            assert(v@[i as int] == false);
            return false;
        }
        i = i + 1;
    }
    true
}

/// The browser: what it lists, whether it shows, and its first row.
#[derive(Clone, Debug)]
pub struct TextureBrowser {
    pub entries: Vec<TextureEntry>,
    pub visible: bool,
    pub scroll: usize,
    pub loaded: bool,
    pub extract_status: Option<String>,
}

impl Default for TextureBrowser {
    fn default() -> (r: Self)
        ensures
            r.entries@.len() == 0,
            !r.visible,
            r.scroll == 0,
            !r.loaded,
            r.extract_status is None,
    {
        TextureBrowser {
            entries: Vec::new(),
            visible: false,
            scroll: 0,
            loaded: false,
            extract_status: None,
        }
    }
}

/// The rows that `n` textures fill.
pub open spec fn row_count(n: nat) -> nat {
    (n + COLS - 1) as nat / COLS as nat
}

/// The last row that can be the first one on the panel.
pub open spec fn last_scroll(n: nat) -> nat {
    if row_count(n) > ROWS {
        (row_count(n) - ROWS) as nat
    } else {
        0
    }
}

fn rows_for(n: usize) -> (r: usize)
    ensures
        r == row_count(n as nat),
        r <= n,
{
    n / COLS + n % COLS
}

/// The keys that the browser reads, each true where it was just pressed.
#[derive(Clone, Copy, PartialEq, Eq, Structural, Debug)]
pub struct BrowserKeys {
    pub toggle: bool,
    pub up: bool,
    pub down: bool,
    pub export: bool,
}

/// The first row after the keys of a frame.
pub open spec fn scrolled(scroll: usize, n: nat, keys: BrowserKeys) -> usize {
    let up: usize = if keys.up && scroll > 0 {
        (scroll - 1) as usize
    } else {
        scroll
    };
    if keys.down && up < last_scroll(n) {
        (up + 1) as usize
    } else {
        up
    }
}

impl TextureBrowser {
    /// The panel does not scroll beyond its last rows.
    pub open spec fn wf(self) -> bool {
        self.scroll <= last_scroll(self.entries@.len())
    }

    /// Takes the keys of a frame; says whether to export the textures.
    pub fn handle_texture_keys(&mut self, keys: BrowserKeys) -> (export: bool)
        ensures
            final(self).entries == old(self).entries,
            final(self).loaded == old(self).loaded,
            final(self).extract_status == old(self).extract_status,
            final(self).visible == (old(self).visible != (keys.toggle && old(self).loaded)),
            final(self).scroll == (if final(self).visible {
                scrolled(old(self).scroll, old(self).entries@.len(), keys)
            } else {
                old(self).scroll
            }),
            old(self).wf() ==> final(self).wf(),
            export == (keys.export && old(self).loaded),
    {
        if keys.toggle && self.loaded {
            self.visible = !self.visible;
        }
        if self.visible {
            let rows: usize = rows_for(self.entries.len());
            let most: usize = if rows > ROWS {
                rows - ROWS
            } else {
                0
            };
            if keys.up && self.scroll > 0 {
                self.scroll = self.scroll - 1;
            }
            if keys.down && self.scroll < most {
                self.scroll = self.scroll + 1;
            }
        }
        keys.export && self.loaded
    }

    /// What the panel shows.
    pub fn rebuild_panel(&self) -> (r: Option<TexturePage>)
        requires
            (self.scroll + ROWS) * COLS <= usize::MAX,
        ensures
            r is Some <==> self.visible,
            r matches Some(page) ==> {
                let n = self.entries@.len();
                &&& page.title@ == "Textury ("@ + decimal_digits(n) + ")   ↑↓   T zavřít"@
                &&& page.empty_note == (n == 0)
                &&& page.rows@ == page_rows(self.scroll as nat, n)
                &&& match page.position {
                    Some(text) => row_count(n) > ROWS && text@ == "řada "@ + decimal_digits(
                        self.scroll as nat + 1,
                    ) + "/"@ + decimal_digits((row_count(n) - (ROWS - 1)) as nat),
                    None => row_count(n) <= ROWS,
                }
            },
    {
        if !self.visible {
            return None;
        }
        let n: usize = self.entries.len();
        let count = decimal(n as u64);
        let mut title = concat("Textury (", count.as_str());
        title.append(")   ↑↓   T zavřít");
        let rows = rows_on_page(self.scroll, n);
        let total: usize = rows_for(n);
        let position = if total > ROWS {
            let first = decimal(self.scroll as u64 + 1);
            let of = decimal((total - (ROWS - 1)) as u64);
            let mut text = concat("řada ", first.as_str());
            text.append("/");
            text.append(of.as_str());
            Some(text)
        } else {
            None
        };
        Some(TexturePage { title, empty_note: n == 0, rows, position })
    }
}

/// A page of the browser.
#[derive(Clone, Debug)]
pub struct TexturePage {
    pub title: String,
    pub empty_note: bool,
    /// The first texture of each row, and the second where there is one.
    pub rows: Vec<(usize, Option<usize>)>,
    pub position: Option<String>,
}

/// The rows from the one of the number `scroll` on, as many as the panel holds.
pub open spec fn page_rows(scroll: nat, n: nat) -> Seq<(usize, Option<usize>)> {
    let left = row_count(n) - scroll;
    let count = if left <= 0 {
        0
    } else if left < ROWS {
        left
    } else {
        ROWS as int
    };
    Seq::new(
        count as nat,
        |i: int|
            (
                ((scroll + i) * COLS) as usize,
                if (scroll + i) * COLS + 1 < n {
                    Some(((scroll + i) * COLS + 1) as usize)
                } else {
                    None
                },
            ),
    )
}

fn rows_on_page(scroll: usize, n: usize) -> (r: Vec<(usize, Option<usize>)>)
    ensures
        r@ == page_rows(scroll as nat, n as nat),
{
    let rows: usize = rows_for(n);
    let mut r: Vec<(usize, Option<usize>)> = Vec::new();
    if scroll >= rows {
        assert(r@ =~= page_rows(scroll as nat, n as nat));
        return r;
    }
    let count: usize = if rows - scroll < ROWS {
        rows - scroll
    } else {
        ROWS
    };
    let mut i: usize = 0;
    while i < count
        invariant
            i <= count,
            rows == row_count(n as nat),
            scroll + count <= rows,
            count == page_rows(scroll as nat, n as nat).len(),
            r@ == page_rows(scroll as nat, n as nat).take(i as int),
        decreases count - i,
    {
        let first: usize = (scroll + i) * COLS;
        let second = if first < n - 1 {
            Some(first + 1)
        } else {
            None
        };
        r.push((first, second));
        proof {
            let all = page_rows(scroll as nat, n as nat);
            assert(all.take(i + 1) =~= all.take(i as int).push(all[i as int]));
        }
        i = i + 1;
    }
    assert(page_rows(scroll as nat, n as nat).take(i as int) =~= page_rows(scroll as nat, n as nat));
    r
}

/// Each texture of a page is one of the list, and stands on the page once.
pub proof fn law_page_in_list(scroll: nat, n: nat, i: int)
    requires
        0 <= i < page_rows(scroll, n).len(),
        n <= usize::MAX,
    ensures
        page_rows(scroll, n)[i].0 == (scroll + i) * COLS,
        page_rows(scroll, n)[i].0 < n,
        page_rows(scroll, n)[i].1 matches Some(k) ==> k == page_rows(scroll, n)[i].0 + 1 && k < n,
{
}

/// With the last row on top, the page reaches the end of the list.
pub proof fn law_last_page_reaches_end(n: nat)
    ensures
        last_scroll(n) + page_rows(last_scroll(n), n).len() == row_count(n),
{
}

/// Whether the panel has to be built anew.
pub fn panel_changed(
    last_visible: &mut Option<bool>,
    last_scroll_shown: &mut usize,
    visible: bool,
    scroll: usize,
) -> (r: bool)
    ensures
        r == (*old(last_visible) != Some(visible) || *old(last_scroll_shown) != scroll),
        *final(last_visible) == Some(visible),
        *final(last_scroll_shown) == scroll,
{
    let same_visible = match *last_visible {
        Some(v) => v == visible,
        None => false,
    };
    let changed = !same_visible || *last_scroll_shown != scroll;
    *last_visible = Some(visible);
    *last_scroll_shown = scroll;
    changed
}

/// The directory for the textures of a model, beside its file.
pub fn texture_dir(parent: &str, stem: &str) -> (r: String)
    ensures
        r@ == joined_path(parent@, stem@ + "_textures"@),
{
    let name = concat(stem, "_textures");
    join_path(parent, name.as_str())
}

/// What the user is told after an export: how many textures were written, and
/// what went wrong.
pub fn export_message(total: u64, errors: &Vec<String>) -> (r: String)
    ensures
        r@ == (if errors@.len() == 0 {
            "Exportováno "@ + decimal_digits(total as nat) + " textur"@
        } else if total > 0 {
            decimal_digits(total as nat) + " textur, chyby: "@ + joined(views(errors@), "; "@)
        } else {
            "Chyba: "@ + joined(views(errors@), "; "@)
        }),
{
    let n = decimal(total);
    if errors.len() == 0 {
        let mut r = concat("Exportováno ", n.as_str());
        r.append(" textur");
        r
    } else {
        let list = join(errors, "; ");
        if total > 0 {
            let mut r = concat(n.as_str(), " textur, chyby: ");
            r.append(list.as_str());
            r
        } else {
            concat("Chyba: ", list.as_str())
        }
    }
}

/// An error of a model in the message of an export.
pub fn export_error(stem: &str, error: &str) -> (r: String)
    ensures
        r@ == stem@ + ": "@ + error@,
{
    let start = concat(stem, ": ");
    concat(start.as_str(), error)
}

proof fn lemma_fitting_front(s: Seq<char>, n: nat)
    requires
        width_all(s) > n,
    ensures
        ({
            let k = fitting(s, n).len() as int;
            k < s.len() && fitting(s, n) == s.take(k) && width_all(s.take(k)) <= n && width_all(
                s.take(k + 1),
            ) > n
        }),
    decreases s.len(),
{
    let front = s.drop_last();
    if width_all(front) <= n {
        let k = front.len() as int;
        assert(fitting(front, n) == front);
        assert(s.take(k) =~= front);
        assert(s.take(k + 1) =~= s);
    } else {
        lemma_fitting_front(front, n);
        let k = fitting(front, n).len() as int;
        assert(s.take(k) =~= front.take(k));
        assert(s.take(k + 1) =~= front.take(k + 1));
    }
}

proof fn lemma_width_front(s: Seq<char>)
    requires
        s.len() > 0,
    ensures
        width_all(s) == width(s[0]) + width_all(s.drop_first()),
    decreases s.len(),
{
    let rest = s.drop_first();
    if s.len() > 1 {
        let front = s.drop_last();
        lemma_width_front(front);
        assert(front.drop_first() =~= rest.drop_last());
    } else {
        reveal_with_fuel(width_all, 2);
        assert(s.drop_last() =~= Seq::empty());
        assert(rest =~= Seq::empty());
    }
}

proof fn lemma_char_width(c: char)
    ensures
        encode_scalar(c as u32).len() == width(c),
{
}

/// The width of a text is the number of its bytes.
pub proof fn law_width_is_bytes(s: Seq<char>)
    ensures
        width_all(s) == encode_utf8(s).len(),
    decreases s.len(),
{
    if s.len() > 0 {
        lemma_width_front(s);
        lemma_char_width(s[0]);
        law_width_is_bytes(s.drop_first());
    }
}

/// A name of up to sixteen bytes stays as it is; of a longer one the most
/// characters that fifteen bytes hold stay, `k` of them, and an ellipsis follows.
pub proof fn law_shortened(s: &str, r: String) -> (k: int)
    requires
        call_ensures(shorten, (s,), r),
    ensures
        encode_utf8(s@).len() <= 16 ==> r@ == s@,
        encode_utf8(s@).len() > 16 ==> 0 <= k < s@.len() && r@ == s@.take(k) + "…"@
            && encode_utf8(s@.take(k)).len() <= 15 && encode_utf8(s@.take(k + 1)).len() > 15,
{
    law_width_is_bytes(s@);
    let k = fitting(s@, 15).len() as int;
    if width_all(s@) > 16 {
        lemma_fitting_front(s@, 15);
        law_width_is_bytes(s@.take(k));
        law_width_is_bytes(s@.take(k + 1));
    }
    k
}

/// A use speaks of a texture by its name, or by its name with dots and letters
/// behind it, as many as there are.
pub open spec fn speaks_of(u: SlotUse, name: Seq<char>) -> bool {
    u.texture@ == name || exists|tail: Seq<char>|
        u.texture@ == #[trigger] (name + tail) && all_suffix(tail) && (name.len() == 0
            || !suffix_char(name.last()))
}

pub open spec fn all_suffix(tail: Seq<char>) -> bool {
    forall|i: int| 0 <= i < tail.len() ==> suffix_char(#[trigger] tail[i])
}

proof fn lemma_bare(s: Seq<char>)
    ensures
        bare(s).len() <= s.len(),
        s.take(bare(s).len() as int) == bare(s),
        all_suffix(s.skip(bare(s).len() as int)),
        bare(s).len() > 0 ==> !suffix_char(bare(s).last()),
    decreases s.len(),
{
    if s.len() > 0 && suffix_char(s.last()) {
        let front = s.drop_last();
        lemma_bare(front);
        let n = bare(s).len() as int;
        assert(s.take(n) =~= front.take(n));
        assert forall|i: int| 0 <= i < s.skip(n).len() implies suffix_char(
            #[trigger] s.skip(n)[i],
        ) by {
            if n + i < front.len() {
                assert(front.skip(n)[i] == s[n + i]);
            }
        }
    } else {
        assert(s.take(s.len() as int) =~= s);
    }
}

proof fn lemma_bare_of(name: Seq<char>, tail: Seq<char>)
    requires
        all_suffix(tail),
        name.len() == 0 || !suffix_char(name.last()),
    ensures
        bare(name + tail) == name,
    decreases tail.len(),
{
    if tail.len() > 0 {
        assert((name + tail).drop_last() =~= name + tail.drop_last());
        assert((name + tail).last() == tail[tail.len() - 1]);
        assert forall|i: int| 0 <= i < tail.drop_last().len() implies suffix_char(
            #[trigger] tail.drop_last()[i],
        ) by {
            assert(tail.drop_last()[i] == tail[i]);
        }
        lemma_bare_of(name, tail.drop_last());
    } else {
        assert(name + tail =~= name);
    }
}

proof fn lemma_speaks_of(u: SlotUse, name: Seq<char>)
    ensures
        names_texture(u, name) == speaks_of(u, name),
{
    let t = u.texture@;
    if bare(t) == name {
        lemma_bare(t);
        let tail = t.skip(name.len() as int);
        assert(t =~= name + tail);
    }
    if speaks_of(u, name) && t != name {
        let tail = choose|tail: Seq<char>|
            t == #[trigger] (name + tail) && all_suffix(tail) && (name.len() == 0 || !suffix_char(
                name.last(),
            ));
        lemma_bare_of(name, tail);
    }
}

proof fn lemma_slot_at(uses: Seq<SlotUse>, name: Seq<char>, k: int)
    requires
        0 <= k <= uses.len(),
        k < uses.len() ==> speaks_of(uses[k], name),
        forall|j: int| 0 <= j < k ==> !speaks_of(#[trigger] uses[j], name),
    ensures
        k < uses.len() ==> slot_of(uses, name) == Some(use_label(uses[k])),
        k == uses.len() ==> slot_of(uses, name) is None,
    decreases k,
{
    if uses.len() > 0 {
        lemma_speaks_of(uses[0], name);
    }
    if k > 0 {
        let rest = uses.drop_first();
        assert(!speaks_of(uses[0], name));
        assert forall|j: int| 0 <= j < k - 1 implies !speaks_of(#[trigger] rest[j], name) by {
            assert(rest[j] == uses[j + 1]);
        }
        lemma_slot_at(rest, name, k - 1);
    }
}

/// `e` lists the texture `name` with its number and a short form of its stem,
/// and with the first use that speaks of its stem, use `k`, or else of its whole
/// name, use `m`; `k` and `m` are the number of uses where there is none.
pub open spec fn lists(
    e: TextureEntry,
    name: Seq<char>,
    number: int,
    uses: Seq<SlotUse>,
    k: int,
    m: int,
) -> bool {
    &&& e.name@ == name
    &&& e.image == number
    &&& k < uses.len() ==> e.slot is Some && e.slot->0@ == uses[k].model@ + "/"@ + uses[k].material@
        + "/"@ + uses[k].slot@
    &&& k >= uses.len() && m < uses.len() ==> e.slot is Some && e.slot->0@ == uses[m].model@ + "/"@
        + uses[m].material@ + "/"@ + uses[m].slot@
    &&& k >= uses.len() && m >= uses.len() ==> e.slot is None
}

/// Use `k` is the first one that speaks of `name`.
pub open spec fn first_use(uses: Seq<SlotUse>, name: Seq<char>, k: int) -> bool {
    &&& 0 <= k <= uses.len()
    &&& k < uses.len() ==> speaks_of(uses[k], name)
    &&& forall|j: int| 0 <= j < k ==> !speaks_of(#[trigger] uses[j], name)
}

/// The images of a glTF model are listed one by one, each under its name or else
/// its number.
pub proof fn law_gltf_listed(
    images: &Vec<Option<String>>,
    uses: &Vec<SlotUse>,
    r: Vec<TextureEntry>,
    i: int,
    name: &str,
    stem: String,
    stem_text: &str,
    short: String,
    k: int,
    m: int,
)
    requires
        call_ensures(gltf_entries, (images, uses), r),
        0 <= i < images@.len(),
        images@[i] matches Some(n) ==> name@ == n@,
        images@[i] is None ==> name@ == "image_"@ + decimal_digits(i as nat),
        call_ensures(path_stem, (name,), stem),
        stem_text@ == stem@,
        call_ensures(shorten, (stem_text,), short),
        first_use(uses@, stem@, k),
        first_use(uses@, name@, m),
    ensures
        r@.len() == images@.len(),
        lists(r@[i], name@, i, uses@, k, m),
        r@[i].short@ == short@,
{
    let args = (images, uses);
    assert(is_entry(r@[i], image_name(args.0@[i], i as nat), i as nat, args.1@));
    lemma_slot_at(uses@, stem@, k);
    lemma_slot_at(uses@, name@, m);
}

/// The textures of a native model are listed in the order of their names, each
/// with its place in that order.
pub proof fn law_adm_listed(
    names: &Vec<String>,
    uses: &Vec<SlotUse>,
    r: Vec<TextureEntry>,
    i: int,
    j: int,
    x: Seq<char>,
    stem: Seq<char>,
    k: int,
    m: int,
)
    requires
        call_ensures(adm_entries, (names, uses), r),
        0 <= i < j < r@.len(),
        stem == path_stem_of(r@[i].name@),
        first_use(uses@, stem, k),
        first_use(uses@, r@[i].name@, m),
    ensures
        r@.len() == names@.len(),
        lists(r@[i], r@[i].name@, i, uses@, k, m),
        in_order(r@[i].name@, r@[j].name@),
        views(names@).contains(r@[i].name@),
{
    let v = views(names@);
    let sorted = sorted_names(v);
    lemma_sorted_names(v);
    let args = (names, uses);
    assert(is_entry(r@[i], sorted[i], i as nat, args.1@));
    assert(is_entry(r@[j], sorted[j], j as nat, args.1@));
    lemma_slot_at(uses@, stem, k);
    lemma_slot_at(uses@, sorted[i], m);
    assert(v.len() == names@.len());
    assert(sorted.contains(sorted[i]));
}

/// The list can be made once there is a model and every one of them is loaded.
pub proof fn law_browser_ready(gltf: &Vec<bool>, adm: &Vec<bool>, r: bool)
    requires
        call_ensures(browser_ready, (gltf, adm), r),
    ensures
        r <==> (gltf@.len() > 0 || adm@.len() > 0) && (forall|i: int|
            0 <= i < gltf@.len() ==> #[trigger] gltf@[i]) && (forall|i: int|
            0 <= i < adm@.len() ==> #[trigger] adm@[i]),
{
    if gltf@.contains(false) {
        let i = choose|i: int| 0 <= i < gltf@.len() && gltf@[i] == false;
        assert(!gltf@[i]);
    }
    if adm@.contains(false) {
        let i = choose|i: int| 0 <= i < adm@.len() && adm@[i] == false;
        assert(!adm@[i]);
    }
}

/// The keys of the browser: one shows or hides it once its list is there, two go
/// a row up and down while it shows, never beyond the first row or so far that
/// less than four rows are left to show, and one exports.
pub proof fn law_browser_keys(b: &mut TextureBrowser, keys: BrowserKeys, export: bool, rows: int)
    requires
        call_ensures(TextureBrowser::handle_texture_keys, (b, keys), export),
        rows == (old(b).entries@.len() + 1) / 2,
    ensures
        final(b).entries == old(b).entries && final(b).loaded == old(b).loaded
            && final(b).extract_status == old(b).extract_status,
        final(b).visible != old(b).visible <==> keys.toggle && old(b).loaded,
        export <==> keys.export && old(b).loaded,
        !final(b).visible || !(keys.up || keys.down) ==> final(b).scroll == old(b).scroll,
        final(b).visible && keys.up && !keys.down ==> final(b).scroll == (if old(b).scroll > 0 {
            old(b).scroll - 1
        } else {
            0
        }),
        final(b).visible && keys.down && !keys.up ==> final(b).scroll == (if old(b).scroll + 4
            < rows {
            old(b).scroll + 1
        } else {
            old(b).scroll as int
        }),
        final(b).visible && keys.down && keys.up && old(b).scroll > 0 && old(b).scroll + 3 < rows
            ==> final(b).scroll == old(b).scroll,
{
    assert(old(b).entries@.len() == old(b).entries.len());
}

/// A page of the browser: up to four rows of two textures each, from the first
/// row that is scrolled to on, and the place in the list where it is longer.
pub proof fn law_texture_page(b: &TextureBrowser, r: Option<TexturePage>, i: int, rows: int)
    requires
        call_ensures(TextureBrowser::rebuild_panel, (b,), r),
        rows == (b.entries@.len() + 1) / 2,
        0 <= i,
        r matches Some(page) ==> i < page.rows@.len(),
    ensures
        r is Some <==> b.visible,
        r matches Some(page) ==> page.title@ == "Textury ("@ + decimal_digits(b.entries@.len())
            + ")   ↑↓   T zavřít"@ && (page.empty_note <==> b.entries@.len() == 0),
        r matches Some(page) ==> page.rows@.len() == (if rows - b.scroll < 4 {
            rows - b.scroll
        } else {
            4
        }),
        r matches Some(page) ==> page.rows@[i].0 == 2 * (b.scroll + i) && page.rows@[i].0
            < b.entries@.len(),
        r matches Some(page) ==> (page.rows@[i].1 is Some <==> 2 * (b.scroll + i) + 1
            < b.entries@.len()),
        r matches Some(page) ==> (page.rows@[i].1 matches Some(k) ==> k == 2 * (b.scroll + i) + 1),
        r matches Some(page) ==> (page.position is Some <==> rows > 4),
        r matches Some(page) ==> (page.position matches Some(text) ==> text@ == "řada "@
            + decimal_digits((b.scroll + 1) as nat) + "/"@ + decimal_digits((rows - 3) as nat)),
{
    assert(b.entries@.len() == b.entries.len());
    if r is Some {
        law_page_in_list(b.scroll as nat, b.entries@.len(), i);
    }
}

/// The panel is built anew where it was shown or hidden or scrolled since, and
/// not twice for the same state.
pub proof fn law_panel_rebuilt(
    last_visible: &mut Option<bool>,
    last_row: &mut usize,
    visible: bool,
    scroll: usize,
    r: bool,
)
    requires
        call_ensures(panel_changed, (last_visible, last_row, visible, scroll), r),
    ensures
        r <==> *old(last_visible) != Some(visible) || *old(last_row) != scroll,
        *final(last_visible) == Some(visible) && *final(last_row) == scroll,
{
}

/// What an export says, and where it writes.
pub proof fn law_export(
    total: u64,
    errors: &Vec<String>,
    r: String,
    dir: &str,
    stem: &str,
    at: String,
    error: &str,
    line: String,
)
    requires
        call_ensures(export_message, (total, errors), r),
        call_ensures(texture_dir, (dir, stem), at),
        call_ensures(export_error, (stem, error), line),
    ensures
        errors@.len() == 0 ==> r@ == "Exportováno "@ + decimal_digits(total as nat) + " textur"@,
        errors@.len() > 0 && total > 0 ==> r@ == decimal_digits(total as nat) + " textur, chyby: "@
            + joined(views(errors@), "; "@),
        errors@.len() > 0 && total == 0 ==> r@ == "Chyba: "@ + joined(views(errors@), "; "@),
        at@ == joined_path(dir@, stem@ + "_textures"@),
        line@ == stem@ + ": "@ + error@,
{
}

/// At first the browser is hidden, empty and at its top.
pub proof fn law_textures_start(r: TextureBrowser)
    requires
        call_ensures(TextureBrowser::default, (), r),
    ensures
        r.entries@.len() == 0 && !r.visible && !r.loaded,
        r.scroll == 0 && r.extract_status is None,
{
}

} // verus!
