//! Listing a directory's images for the icon view: which files are images,
//! which group of them is shown, and how big each icon is drawn.

use vstd::prelude::*;
use crate::groups::{GroupError, GroupRequest};
use crate::notice::{Notice, plain};
use crate::sorting::{is_sorted, sort_names, texts};
use crate::text::{decimal, decimal_text};

verus! {

/// `s` ends with `suffix`.
pub open spec fn ends_with(s: Seq<char>, suffix: Seq<char>) -> bool {
    suffix.len() <= s.len() && s.subrange(s.len() - suffix.len(), s.len() as int) == suffix
}

/// The file names the icon view lists: those ending in `.jpg`, `.JPG`,
/// `.jpeg`, `.JPEG`, `.png` or `.PNG`.
pub open spec fn is_image_name(name: Seq<char>) -> bool {
    ||| ends_with(name, ".jpg"@)
    ||| ends_with(name, ".JPG"@)
    ||| ends_with(name, ".jpeg"@)
    ||| ends_with(name, ".JPEG"@)
    ||| ends_with(name, ".png"@)
    ||| ends_with(name, ".PNG"@)
}

/// Tells whether `s` ends with `suffix`.
pub fn has_suffix(s: &str, suffix: &str) -> (r: bool)
    ensures
        r == ends_with(s@, suffix@),
{
    let n = s.unicode_len();
    let m = suffix.unicode_len();
    if m > n {
        return false;
    }
    let off = n - m;
    let mut i: usize = 0;
    while i < m
        invariant
            n == s@.len(),
            m == suffix@.len(),
            off == n - m,
            i <= m,
            forall|j: int| 0 <= j < i ==> s@[off + j] == suffix@[j],
        decreases m - i,
    {
        if s.get_char(off + i) != suffix.get_char(i) {
            assert(s@.subrange(off as int, n as int)[i as int] != suffix@[i as int]);
            return false;
        }
        i = i + 1;
    }
    assert(s@.subrange(off as int, n as int) =~= suffix@);
    true
}

/// Tells whether the icon view lists a file of this name.
pub fn is_image_file_name(name: &str) -> (r: bool)
    ensures
        r == is_image_name(name@),
{
    has_suffix(name, ".jpg") || has_suffix(name, ".JPG") || has_suffix(name, ".jpeg")
        || has_suffix(name, ".JPEG") || has_suffix(name, ".png") || has_suffix(name, ".PNG")
}

/// A regular file of the directory whose name is valid UTF-8.
pub struct DirFile {
    /// The file's name.
    pub name: String,
    /// The file's full path.
    pub path: String,
}

/// The names and the paths of the image files among `files`, in the order given.
pub open spec fn image_names(files: Seq<DirFile>) -> Seq<Seq<char>>
    decreases files.len(),
{
    if files.len() == 0 {
        Seq::empty()
    } else if is_image_name(files.last().name@) {
        image_names(files.drop_last()).push(files.last().name@)
    } else {
        image_names(files.drop_last())
    }
}

/// The paths of the image files among `files`, in the order given.
pub open spec fn image_paths(files: Seq<DirFile>) -> Seq<Seq<char>>
    decreases files.len(),
{
    if files.len() == 0 {
        Seq::empty()
    } else if is_image_name(files.last().name@) {
        image_paths(files.drop_last()).push(files.last().path@)
    } else {
        image_paths(files.drop_last())
    }
}

/// Whether a directory file is one of the images the icon view lists.
pub open spec fn is_image_file(f: DirFile) -> bool {
    is_image_name(f.name@)
}

/// `f` is an image file named `name`.
pub open spec fn image_file_named(f: DirFile, name: Seq<char>) -> bool {
    f.name@ == name && is_image_name(name)
}

/// The image files are the files with an image name, in the order given:
/// their names and paths are those of the files kept by that test.
pub proof fn lemma_image_files(files: Seq<DirFile>)
    ensures
        image_names(files) == files.filter(|f: DirFile| is_image_file(f)).map_values(
            |f: DirFile| f.name@,
        ),
        image_paths(files) == files.filter(|f: DirFile| is_image_file(f)).map_values(
            |f: DirFile| f.path@,
        ),
    decreases files.len(),
{
    let pred = |f: DirFile| is_image_file(f);
    if files.len() == 0 {
        assert(files.filter(pred) =~= Seq::<DirFile>::empty()) by {
            reveal(Seq::filter);
        }
    } else {
        let rest = files.drop_last();
        let f = files.last();
        lemma_image_files(rest);
        assert(files =~= rest.push(f));
        rest.lemma_filter_push(f, pred);
        if pred(f) {
            rest.filter(pred).lemma_push_map_commute(|f: DirFile| f.name@, f);
            rest.filter(pred).lemma_push_map_commute(|f: DirFile| f.path@, f);
        }
    }
}

/// Every file with an image name is among the image names, and every image
/// name is the name of such a file.
pub proof fn lemma_image_names_members(files: Seq<DirFile>)
    ensures
        forall|k: int|
            0 <= k < files.len() && is_image_name(#[trigger] files[k].name@) ==> image_names(
                files,
            ).contains(files[k].name@),
        forall|i: int|
            #![trigger image_names(files)[i]]
            0 <= i < image_names(files).len() ==> exists|k: int|
                0 <= k < files.len() && image_file_named(#[trigger] files[k], image_names(files)[i]),
    decreases files.len(),
{
    if files.len() > 0 {
        let rest = files.drop_last();
        lemma_image_names_members(rest);
        let f = files.last();
        assert forall|k: int|
            0 <= k < files.len() && is_image_name(#[trigger] files[k].name@) implies image_names(
            files,
        ).contains(files[k].name@) by {
            if k < files.len() - 1 {
                assert(files[k] == rest[k]);
                let j = choose|j: int| 0 <= j < image_names(rest).len() && image_names(rest)[j] == rest[k].name@;
                assert(image_names(files)[j] == image_names(rest)[j]);
            } else {
                assert(image_names(files).last() == f.name@);
            }
        }
        assert forall|i: int|
            #![trigger image_names(files)[i]]
            0 <= i < image_names(files).len() implies exists|k: int|
            0 <= k < files.len() && image_file_named(#[trigger] files[k], image_names(files)[i]) by {
            if i < image_names(rest).len() {
                assert(image_names(files)[i] == image_names(rest)[i]);
                let k = choose|k: int|
                    0 <= k < rest.len() && image_file_named(#[trigger] rest[k], image_names(rest)[i]);
                assert(files[k] == rest[k]);
                assert(image_file_named(files[k], image_names(files)[i]));
            } else {
                assert(files[files.len() - 1] == f);
                if is_image_name(f.name@) {
                    assert(image_names(files) == image_names(rest).push(f.name@));
                    assert(image_names(files)[i] == f.name@);
                    assert(image_file_named(files[files.len() - 1], image_names(files)[i]));
                } else {
                    assert(image_names(files) == image_names(rest));
                }
            }
        }
    }
}

proof fn lemma_image_counts(files: Seq<DirFile>)
    ensures
        image_names(files).len() == image_paths(files).len(),
        image_names(files).len() <= files.len(),
    decreases files.len(),
{
    if files.len() > 0 {
        lemma_image_counts(files.drop_last());
    }
}

/// The group of icons to draw.
pub struct Page {
    /// The names of all image files, sorted.
    pub names: Vec<String>,
    /// The paths of all image files, sorted on their own.
    pub paths: Vec<String>,
    /// The positions (from 0) of the first icon drawn and of the one just
    /// after the last: each position `i` draws `paths[i]` with the caption
    /// `names[i]`.
    pub start: usize,
    pub end: usize,
    /// The line shown once the icons are drawn.
    pub notice: Notice,
}

/// The line shown once a group is drawn.
pub open spec fn page_message(from: nat, last: nat, total: nat) -> Seq<char> {
    "files from "@ + decimal(from) + " to "@ + decimal(last) + " displayed of total files "@
        + decimal(total)
}

/// Chooses the group of images to draw. Of the files, those with an image
/// name are kept; if there are fewer of them than "From", nothing is drawn.
/// Otherwise the names and the paths are each sorted, and the group runs from
/// position "From" to "To", or to the last image if "To" is beyond it.
pub fn plan_page(request: GroupRequest, files: Vec<DirFile>) -> (r: Result<Page, GroupError>)
    requires
        0 < request.from <= request.to,
    ensures
        ({
            let names = image_names(files@);
            let paths = image_paths(files@);
            match r {
                Err(e) => names.len() < request.from && e == GroupError::FromBeyondCount {
                    from: request.from as u64,
                    count: names.len() as u64,
                },
                Ok(page) => {
                    &&& texts(page.names@).to_multiset() == files@.filter(
                        |f: DirFile| is_image_file(f),
                    ).map_values(|f: DirFile| f.name@).to_multiset()
                    &&& texts(page.paths@).to_multiset() == files@.filter(
                        |f: DirFile| is_image_file(f),
                    ).map_values(|f: DirFile| f.path@).to_multiset()
                    &&& (forall|k: int|
                        0 <= k < files@.len() && (ends_with(#[trigger] files@[k].name@, ".jpg"@)
                            || ends_with(files@[k].name@, ".JPG"@) || ends_with(
                            files@[k].name@,
                            ".jpeg"@,
                        ) || ends_with(files@[k].name@, ".JPEG"@) || ends_with(
                            files@[k].name@,
                            ".png"@,
                        ) || ends_with(files@[k].name@, ".PNG"@)) ==> texts(page.names@).contains(
                            files@[k].name@,
                        ))
                    &&& (forall|i: int|
                        #![trigger page.names@[i]]
                        0 <= i < page.names@.len() ==> exists|k: int|
                            0 <= k < files@.len() && image_file_named(#[trigger] files@[k], page.names@[i]@))
                    &&& names.len() >= request.from
                    &&& is_sorted(texts(page.names@))
                    &&& texts(page.names@).to_multiset() == names.to_multiset()
                    &&& is_sorted(texts(page.paths@))
                    &&& texts(page.paths@).to_multiset() == paths.to_multiset()
                    &&& page.start == request.from - 1
                    &&& page.end == if request.to > names.len() {
                        names.len() as int
                    } else {
                        request.to as int
                    }
                    &&& page.start < page.end <= page.names@.len() == page.paths@.len()
                    &&& !page.notice.markup
                    &&& page.notice.text@ == page_message(
                        request.from as nat,
                        page.end as nat,
                        names.len(),
                    )
                },
            }
        }),
{
    let mut names: Vec<String> = Vec::new();
    let mut paths: Vec<String> = Vec::new();
    let mut i: usize = 0;
    while i < files.len()
        invariant
            i <= files@.len(),
            texts(names@) == image_names(files@.take(i as int)),
            texts(paths@) == image_paths(files@.take(i as int)),
        decreases files@.len() - i,
    {
        let ghost before_names = names@;
        let ghost before_paths = paths@;
        assert(files@.take(i + 1).drop_last() =~= files@.take(i as int));
        if is_image_file_name(files[i].name.as_str()) {
            names.push(files[i].name.clone());
            paths.push(files[i].path.clone());
            assert(texts(names@) =~= texts(before_names).push(files@[i as int].name@));
            assert(texts(paths@) =~= texts(before_paths).push(files@[i as int].path@));
        }
        i = i + 1;
    }
    assert(files@.take(files@.len() as int) =~= files@);
    proof {
        lemma_image_counts(files@);
    }
    let count = names.len();
    assert(texts(names@).len() == names@.len());
    assert(texts(paths@).len() == paths@.len());
    if count < request.from as usize {
        return Err(GroupError::FromBeyondCount { from: request.from as u64, count: count as u64 });
    }
    proof {
        lemma_image_files(files@);
        lemma_image_names_members(files@);
    }
    let ghost unsorted = texts(names@);
    let names = sort_names(names);
    let paths = sort_names(paths);
    proof {
        broadcast use vstd::seq_lib::group_to_multiset_ensures;

        assert forall|k: int|
            0 <= k < files@.len() && is_image_name(#[trigger] files@[k].name@) implies texts(
            names@,
        ).contains(files@[k].name@) by {
            vstd::seq_lib::to_multiset_contains(unsorted, files@[k].name@);
            vstd::seq_lib::to_multiset_contains(texts(names@), files@[k].name@);
        }
        assert forall|i: int|
            #![trigger names@[i]]
            0 <= i < names@.len() implies exists|k: int|
            0 <= k < files@.len() && image_file_named(#[trigger] files@[k], names@[i]@) by {
            assert(texts(names@)[i] == names@[i]@);
            vstd::seq_lib::to_multiset_contains(texts(names@), names@[i]@);
            vstd::seq_lib::to_multiset_contains(unsorted, names@[i]@);
            let j = choose|j: int| 0 <= j < unsorted.len() && unsorted[j] == names@[i]@;
            assert(unsorted[j] == image_names(files@)[j]);
            let k = choose|k: int|
                0 <= k < files@.len() && image_file_named(#[trigger] files@[k], image_names(files@)[j]);
            assert(image_file_named(files@[k], names@[i]@));
        }
        assert(texts(names@).to_multiset() == files@.filter(|f: DirFile| is_image_file(f)).map_values(
            |f: DirFile| f.name@,
        ).to_multiset());
        assert(texts(paths@).to_multiset() == files@.filter(|f: DirFile| is_image_file(f)).map_values(
            |f: DirFile| f.path@,
        ).to_multiset());
    }
    let last: usize = if request.to as usize > count {
        count
    } else {
        request.to as usize
    };
    let mut message = String::from_str("files from ");
    message.append(decimal_text(request.from as u64).as_str());
    message.append(" to ");
    message.append(decimal_text(last as u64).as_str());
    message.append(" displayed of total files ");
    message.append(decimal_text(count as u64).as_str());
    Ok(Page { names, paths, start: (request.from - 1) as usize, end: last, notice: plain(message) })
}

/// The size an image of `width` by `height` pixels is drawn at in the icon
/// view: its longer side becomes `icon`, and the other is scaled alike,
/// rounding down.
pub fn icon_dimensions(icon: i32, width: i32, height: i32) -> (r: (i32, i32))
    requires
        0 < icon,
        0 < width,
        0 < height,
        height > width ==> icon * width <= i32::MAX,
        height <= width ==> icon * height <= i32::MAX,
    ensures
        height > width ==> r == ((icon * width / (height as int)) as i32, icon),
        height <= width ==> r == (icon, (icon * height / (width as int)) as i32),
        0 <= r.0 <= icon,
        0 <= r.1 <= icon,
{
    if height > width {
        let w = icon * width / height;
        assert(icon * width <= icon * height) by (nonlinear_arith)
            requires
                0 < icon,
                width < height,
        ;
        assert(icon * width / (height as int) <= icon) by (nonlinear_arith)
            requires
                0 < height,
                0 <= icon * width <= icon * height,
        ;
        (w, icon)
    } else {
        let h = icon * height / width;
        assert(icon * height <= icon * width) by (nonlinear_arith)
            requires
                0 < icon,
                height <= width,
        ;
        assert(icon * height / (width as int) <= icon) by (nonlinear_arith)
            requires
                0 < width,
                0 <= icon * height <= icon * width,
        ;
        (icon, h)
    }
}

} // verus!
