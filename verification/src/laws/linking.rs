//! What holds of the links in a text and of what is attached for them.

use vstd::prelude::*;

#[allow(unused_imports)]
use crate::attachments::{
    attached, attached_at, behind_last, clean_text, cut_links, formatted, gives_attachment,
    guessed_type, is_clipboard_path, is_moment, last_extension, last_name, linked_path,
    linked_paths, matches_fit, part_at, plain_path, png_file, screenshot_name, slashed, text_of,
    type_of_extension, unprefixed, without_end, AttachmentSpec, ClipboardImage, Fetched, Moment,
};
#[allow(unused_imports)]
use crate::text::{
    between_bytes, byte_len, char_boundary, from_byte, is_prefix, lemma_starts_at_unique, trimmed,
    trimmed_end,
};

verus! {

/// A part of a text is a link if it starts with `file://`, and what follows that is the path that it
/// names. Any other part is no link.
pub proof fn links_name_paths(input: Seq<char>, part: (usize, usize), i: int, j: int)
    requires
        0 <= i <= j <= input.len(),
        byte_len(input.take(i)) == part.0,
        byte_len(input.take(j)) == part.1,
    ensures
        forall|path: Seq<char>|
            input.subrange(i, j) == #[trigger] ("file://"@ + path) ==> linked_path(input, part) == Some(
                path,
            ),
        (forall|path: Seq<char>| input.subrange(i, j) != #[trigger] ("file://"@ + path))
            ==> linked_path(input, part) is None,
{
    lemma_starts_at_unique(input, i, part.0 as int);
    lemma_starts_at_unique(input, j, part.1 as int);
    let link = input.subrange(i, j);
    assert forall|path: Seq<char>| link == #[trigger] ("file://"@ + path) implies linked_path(
        input,
        part,
    ) == Some(path) by {
        assert(link.take("file://"@.len() as int) =~= "file://"@);
        assert(link.skip("file://"@.len() as int) =~= path);
    }
    if is_prefix("file://"@, link) {
        assert(link =~= "file://"@ + link.skip("file://"@.len() as int));
    }
}

/// A part that is no link changes nothing: what is left of the text, and what its links name.
pub proof fn other_parts_change_nothing(
    input: Seq<char>,
    matches: Seq<(usize, usize)>,
    part: (usize, usize),
)
    requires
        linked_path(input, part) is None,
    ensures
        clean_text(input, matches.push(part)) == clean_text(input, matches),
        linked_paths(input, matches.push(part)) == linked_paths(input, matches),
        cut_links(input, matches.push(part)).text == cut_links(input, matches).text,
        cut_links(input, matches.push(part)).offset == cut_links(input, matches).offset,
{
    assert(matches.push(part).drop_last() =~= matches);
}

/// A further link is cut out with the white space before it, back to the end of the link before, and
/// the path that it names comes last. What follows it is what is behind its last byte.
pub proof fn links_are_cut_out_one_by_one(
    input: Seq<char>,
    matches: Seq<(usize, usize)>,
    part: (usize, usize),
    path: Seq<char>,
)
    requires
        linked_path(input, part) == Some(path),
    ensures
        linked_paths(input, matches.push(part)) == linked_paths(input, matches).push(path),
        clean_text(input, matches.push(part)) == trimmed(
            cut_links(input, matches).text + trimmed_end(
                between_bytes(input, cut_links(input, matches).offset, part.0 as int),
            ) + from_byte(input, part.1 as int),
        ),
        cut_links(input, matches.push(part)).offset == part.1,
{
    assert(matches.push(part).drop_last() =~= matches);
}

proof fn lemma_fit_push(input: Seq<char>, matches: Seq<(usize, usize)>, part: (usize, usize))
    requires
        matches_fit(input, matches),
        part.0 <= part.1,
        char_boundary(input, part.0 as int),
        char_boundary(input, part.1 as int),
        matches.len() > 0 ==> matches.last().1 <= part.0,
    ensures
        matches_fit(input, matches.push(part)),
{
    let now = matches.push(part);
    assert forall|k: int| 0 <= k < now.len() implies {
        &&& (#[trigger] now[k]).0 <= now[k].1
        &&& char_boundary(input, now[k].0 as int)
        &&& char_boundary(input, now[k].1 as int)
    } by {
        if k < matches.len() {
            assert(now[k] == matches[k]);
        }
    }
    assert forall|k: int, l: int| 0 <= k < l < now.len() implies (#[trigger] now[k]).1 <= (
    #[trigger] now[l]).0 by {
        assert(now[k] == matches[k]);
        if l < matches.len() {
            assert(now[l] == matches[l]);
        } else if k < matches.len() - 1 {
            assert(matches[k].1 <= matches[matches.len() - 1].0);
        }
    }
}

/// Parts of a text fit if each of them ends at its start or behind it, both between characters, and
/// starts where the one before ends or behind it.
pub proof fn parts_fit_in_order(
    input: Seq<char>,
    matches: Seq<(usize, usize)>,
    part: (usize, usize),
)
    ensures
        matches_fit(input, Seq::empty()),
        matches_fit(input, matches.push(part)) <==> matches_fit(input, matches) && part.0 <= part.1
            && char_boundary(input, part.0 as int) && char_boundary(input, part.1 as int) && (
        matches.len() > 0 ==> matches.last().1 <= part.0),
{
    let now = matches.push(part);
    if matches_fit(input, now) {
        assert forall|k: int| 0 <= k < matches.len() implies {
            &&& (#[trigger] matches[k]).0 <= matches[k].1
            &&& char_boundary(input, matches[k].0 as int)
            &&& char_boundary(input, matches[k].1 as int)
        } by {
            assert(now[k] == matches[k]);
        }
        assert forall|k: int, l: int| 0 <= k < l < matches.len() implies (#[trigger] matches[k]).1
            <= (#[trigger] matches[l]).0 by {
            assert(now[k] == matches[k] && now[l] == matches[l]);
        }
        assert(now[matches.len() as int] == part);
        if matches.len() > 0 {
            assert(now[matches.len() - 1] == matches.last());
        }
    }
    if matches_fit(input, matches) && part.0 <= part.1 && char_boundary(input, part.0 as int)
        && char_boundary(input, part.1 as int) && (matches.len() > 0 ==> matches.last().1
        <= part.0) {
        lemma_fit_push(input, matches, part);
    }
}

/// The paths that start with `clip` stand for the clipboard, and no others do.
pub proof fn clipboard_paths_start_with_clip(path: Seq<char>)
    ensures
        is_clipboard_path(path) <==> exists|rest: Seq<char>| path == #[trigger] ("clip"@ + rest),
{
    crate::laws::boxes::prefixes_are_gone_on_with("clip"@, path);
}

/// An image is complete if it has the four bytes of each of its points at least, and its width and
/// height have 32 bits each. A complete image is encoded only if it has no other bytes, and fewer than
/// 2^30 points in a row. One that is not complete is not encoded but refused.
pub proof fn images_have_four_bytes_for_each_point(image: ClipboardImage)
    ensures
        image.complete() <==> image.width <= 0xffff_ffff && image.height <= 0xffff_ffff
            && image.bytes@.len() >= 4 * (image.width * image.height),
        image.encodable() <==> !image.complete() || image.bytes@.len() == 4 * (image.width
            * image.height) && image.width < 0x4000_0000,
{
}

/// An image is attached where a link stands for the clipboard, if the image is complete and has points.
/// A file is attached where a link does not. Nothing is attached of what is missing.
pub proof fn images_are_attached_for_the_clipboard(path: Seq<char>, fetched: Fetched)
    ensures
        fetched is Missing ==> !gives_attachment(path, fetched),
        fetched matches Fetched::File(_) ==> (gives_attachment(path, fetched) <==> !is_prefix(
            "clip"@,
            path,
        )),
        fetched matches Fetched::Image(image) ==> (gives_attachment(path, fetched) <==> is_prefix(
            "clip"@,
            path,
        ) && image.complete() && image.width > 0 && image.height > 0),
{
}

/// What is attached for an image of the clipboard is a PNG file of it, named after the moment, with the
/// size of the image and of the file.
pub proof fn attached_image_is_a_png_file(
    paths: Seq<Seq<char>>,
    fetched: Seq<Fetched>,
    at: Moment,
    i: int,
    item: (AttachmentSpec, Vec<u8>),
    image: ClipboardImage,
)
    requires
        attached(paths, fetched, at, i, item),
        fetched[i] == Fetched::Image(image),
    ensures
        0 <= i < paths.len(),
        item.1@ == png_file(image.bytes@, image.width as u32, image.height as u32),
        item.0.content_type@ == "image/png"@,
        item.0.length == item.1@.len(),
        item.0.width == Some(image.width as u32),
        item.0.height == Some(image.height as u32),
        item.0.file_name is Some,
        item.0.file_name->0@ == "screenshot-"@ + formatted(
            at.secs(),
            at.nanos(),
            at.offset(),
            "%Y-%m-%dT%H:%M:%S%z"@,
        ) + ".png"@,
{
}

/// What is attached for a file is what it holds, with its length and no size of an image. Where all
/// machines read its path alike, its type is told by the extension, and its name is the last part.
/// Where backslashes are read one way or the other, this holds of one of the two.
pub proof fn attached_file_is_what_it_holds(
    paths: Seq<Seq<char>>,
    fetched: Seq<Fetched>,
    at: Moment,
    i: int,
    item: (AttachmentSpec, Vec<u8>),
    bytes: Vec<u8>,
)
    requires
        attached(paths, fetched, at, i, item),
        fetched[i] == Fetched::File(bytes),
    ensures
        0 <= i < paths.len(),
        item.1@ == bytes@,
        item.0.length == bytes@.len(),
        item.0.width is None,
        item.0.height is None,
        plain_path(paths[i]) && last_name(paths[i]) is None ==> item.0.file_name is None,
        plain_path(paths[i]) && last_name(paths[i]) is Some ==> item.0.file_name is Some
            && item.0.file_name->0@ == last_name(paths[i])->0,
        plain_path(paths[i]) && last_extension(paths[i]) is None ==> item.0.content_type@ == Seq::<
            char,
        >::empty(),
        plain_path(paths[i]) && last_extension(paths[i]) is Some && guessed_type(
            last_extension(paths[i])->0,
        ) is Some ==> item.0.content_type@ == guessed_type(last_extension(paths[i])->0)->0,
        plain_path(paths[i]) && last_extension(paths[i]) is Some && guessed_type(
            last_extension(paths[i])->0,
        ) is None ==> item.0.content_type@ == Seq::<char>::empty(),
        unprefixed(paths[i]) ==> text_of(item.0.file_name) == last_name(paths[i]) || text_of(
            item.0.file_name,
        ) == last_name(slashed(paths[i])),
        unprefixed(paths[i]) ==> item.0.content_type@ == type_of_extension(last_extension(paths[i]))
            || item.0.content_type@ == type_of_extension(last_extension(slashed(paths[i]))),
{
}

/// What is attached for some of the paths is in their order, one item for each.
pub proof fn attachments_are_in_order(
    paths: Seq<Seq<char>>,
    fetched: Seq<Fetched>,
    at: Moment,
    indices: Seq<int>,
    items: Seq<(AttachmentSpec, Vec<u8>)>,
    j: int,
)
    requires
        attached_at(paths, fetched, at, indices, items),
        0 <= j < indices.len(),
    ensures
        items.len() == indices.len(),
        attached(paths, fetched, at, indices[j], items[j]),
{
}

/// Nothing is attached for what is missing.
pub proof fn nothing_is_attached_for_what_is_missing(
    paths: Seq<Seq<char>>,
    fetched: Seq<Fetched>,
    at: Moment,
    i: int,
    item: (AttachmentSpec, Vec<u8>),
)
    requires
        fetched[i] is Missing,
    ensures
        !attached(paths, fetched, at, i, item),
{
}

proof fn lemma_behind_last(a: Seq<char>, c: char, b: Seq<char>)
    requires
        !b.contains(c),
    ensures
        behind_last(a.push(c) + b, c) == b,
        behind_last(b, c) == b,
    decreases b.len(),
{
    let s = a.push(c) + b;
    if b.len() == 0 {
        assert(s =~= a.push(c));
        assert(behind_last(b, c) =~= b);
        assert(behind_last(s, c) =~= b);
    } else {
        let less = b.drop_last();
        assert(b.contains(b.last()));
        assert(!less.contains(c)) by {
            if less.contains(c) {
                let i = choose|i: int| 0 <= i < less.len() && less[i] == c;
                assert(b[i] == c);
            }
        }
        lemma_behind_last(a, c, less);
        assert(s.drop_last() =~= a.push(c) + less);
        assert(less.push(b.last()) =~= b);
        assert(s.last() == b.last());
    }
}

/// The name of a file is what stands behind the last slash of its path, or all of it where there is
/// none, unless that is one dot or two.
pub proof fn file_name_is_the_last_part(dir: Seq<char>, name: Seq<char>)
    requires
        name.len() > 0,
        !name.contains('/'),
        name != seq!['.'],
        name != seq!['.', '.'],
    ensures
        last_name(dir + seq!['/'] + name) == Some(name),
        last_name(name) == Some(name),
{
    lemma_behind_last(dir, '/', name);
    let path = dir + seq!['/'] + name;
    assert(path =~= dir.push('/') + name);
    assert(name.contains(name.last()));
    assert(path.last() == name.last());
    if path.last() == '.' && path[path.len() - 2] == '/' {
        if name.len() == 1 {
            assert(name =~= seq!['.']);
        } else {
            assert(name.contains(name[name.len() - 2]));
        }
    }
    assert(without_end(path) == path);
    if name.len() > 1 && name.last() == '.' && name[name.len() - 2] == '/' {
        assert(name.contains(name[name.len() - 2]));
    }
    assert(without_end(name) == name);
}

/// Slashes at the end of a path do not count, nor single dots behind one. A path that ends in two dots
/// as its last part names no file, and neither does one of nothing but a dot or slashes.
pub proof fn ends_without_names_do_not_count(path: Seq<char>)
    ensures
        last_name(path.push('/')) == last_name(path),
        last_name(path.push('/').push('.')) == last_name(path),
        last_name(path.push('/').push('.').push('.')) is None,
        last_name(seq!['.', '.']) is None,
        last_name(seq!['.']) is None,
        last_name(Seq::empty()) is None,
{
    assert(path.push('/').drop_last() =~= path);
    assert(without_end(path.push('/')) == without_end(path));
    assert(path.push('/').push('.').drop_last() =~= path.push('/'));
    assert(without_end(path.push('/').push('.')) == without_end(path.push('/')));
    let two = path.push('/').push('.').push('.');
    let dots = seq!['.', '.'];
    assert(without_end(two) == two);
    assert(two =~= path.push('/') + dots);
    assert(!dots.contains('/'));
    lemma_behind_last(path, '/', dots);
    assert(without_end(dots) == dots);
    let one = seq!['.'];
    assert(without_end(one) == one);
    assert(!one.contains('/'));
    lemma_behind_last(path, '/', one);
}

/// The extension is what stands behind the last dot of the file's name, if something stands before
/// that dot.
pub proof fn extension_is_behind_the_last_dot(dir: Seq<char>, stem: Seq<char>, extension: Seq<char>)
    requires
        !stem.contains('/'),
        !extension.contains('/'),
        !extension.contains('.'),
        stem.len() > 0,
        stem != seq!['.'] || extension.len() > 0,
    ensures
        last_extension(dir + seq!['/'] + (stem + seq!['.'] + extension)) == Some(extension),
        last_extension(stem + seq!['.'] + extension) == Some(extension),
{
    let name = stem + seq!['.'] + extension;
    assert(name =~= stem.push('.') + extension);
    assert(!name.contains('/')) by {
        if name.contains('/') {
            let i = choose|i: int| 0 <= i < name.len() && name[i] == '/';
            if i < stem.len() {
                assert(stem.contains(stem[i]));
            } else if i > stem.len() {
                assert(extension.contains(extension[i - stem.len() - 1]));
            }
        }
    }
    if name == seq!['.', '.'] {
        assert(name.len() == 2);
        assert(stem.len() == 1 ==> stem[0] == name[0]);
        if stem.len() == 1 {
            assert(stem =~= seq!['.']);
        }
    }
    file_name_is_the_last_part(dir, name);
    lemma_behind_last(stem, '.', extension);
}

/// A name without a dot has no extension, nor has one whose only dot comes first.
pub proof fn names_without_dots_have_no_extension(name: Seq<char>)
    requires
        name.len() > 0,
        !name.contains('/'),
        !name.contains('.'),
    ensures
        last_extension(name) is None,
        last_extension(seq!['.'] + name) is None,
{
    let hidden = seq!['.'] + name;
    assert(name != seq!['.'] && name != seq!['.', '.']) by {
        assert(name.contains(name[0]));
    }
    assert(!hidden.contains('/')) by {
        if hidden.contains('/') {
            let i = choose|i: int| 0 <= i < hidden.len() && hidden[i] == '/';
            assert(i > 0);
            assert(name.contains(name[i - 1]));
        }
    }
    assert(hidden != seq!['.', '.']) by {
        assert(name.contains(name[0]));
        assert(hidden[1] == name[0]);
    }
    let none = Seq::<char>::empty();
    file_name_is_the_last_part(none, name);
    file_name_is_the_last_part(none, hidden);
    lemma_behind_last(none, '.', name);
    assert(none.push('.') + name =~= hidden);
}

/// A part stands at a place in a text just where something before it of that length, and something
/// behind it, make up the text with it.
pub proof fn parts_stand_between_the_rest(part: Seq<char>, whole: Seq<char>, i: int)
    ensures
        part_at(part, whole, i) <==> exists|a: Seq<char>, b: Seq<char>|
            a.len() == i && whole == #[trigger] (a + part + b),
{
    if part_at(part, whole, i) {
        let a = whole.take(i);
        let b = whole.skip(i + part.len());
        assert(whole =~= a + part + b);
    }
    if exists|a: Seq<char>, b: Seq<char>| a.len() == i && whole == #[trigger] (a + part + b) {
        let (a, b) = choose|a: Seq<char>, b: Seq<char>|
            a.len() == i && whole == #[trigger] (a + part + b);
        assert(whole.subrange(i, i + part.len()) =~= part);
    }
}

/// The type of a file is the one that is guessed from its extension, and empty where there is no
/// extension or no guess.
pub proof fn extension_tells_the_type(extension: Seq<char>)
    ensures
        guessed_type(extension) is Some ==> type_of_extension(Some(extension)) == guessed_type(
            extension,
        )->0,
        guessed_type(extension) is None ==> type_of_extension(Some(extension)) == Seq::<char>::empty(),
        type_of_extension(None) == Seq::<char>::empty(),
{
}

/// Paths without backslashes, and without a drive or another computer at their start, are read alike
/// everywhere. Backslashes count as slashes on some machines.
pub proof fn plain_paths_are_read_alike(path: Seq<char>)
    ensures
        plain_path(path) <==> !path.contains('\\') && (path.len() < 2 || path[1] != ':' && !(path[0]
            == '/' && path[1] == '/')),
        unprefixed(path) <==> path.len() < 2 || path[1] != ':' && !((path[0] == '/' || path[0]
            == '\\') && (path[1] == '/' || path[1] == '\\')),
        slashed(path).len() == path.len(),
        forall|i: int|
            #![trigger path[i]]
            #![trigger slashed(path)[i]]
            0 <= i < path.len() ==> (path[i] == '\\' ==> slashed(path)[i] == '/') && (path[i] != '\\'
                ==> slashed(path)[i] == path[i]),
        plain_path(path) ==> slashed(path) == path,
{
    if path.len() >= 2 {
        assert(path[0] == '\\' ==> path.contains(path[0]));
        assert(path[1] == '\\' ==> path.contains(path[1]));
    }
    if plain_path(path) {
        assert forall|i: int| 0 <= i < path.len() implies #[trigger] slashed(path)[i]
            == path[i] by {
            assert(path.contains(path[i]));
        }
        assert(slashed(path) =~= path);
    }
}

/// A moment has fewer nanoseconds than a second has, or than two where a minute ends, a second that the
/// calendar knows, and clocks that are less than a day ahead or behind.
pub proof fn moments_are_on_the_calendar(secs: i64, nanos: u32, offset: i32)
    ensures
        is_moment(secs, nanos, offset) <==> -8334601228800 <= secs <= 8210266876799 && (nanos
            < 1_000_000_000 || (nanos < 2_000_000_000 && secs % 60 == 59)) && -86400 < offset
            < 86400,
{
}

/// The name of a screenshot starts with `screenshot-`, ends with `.png` and has the stamp between.
pub proof fn screenshots_are_named_after_the_moment(stamp: Seq<char>)
    ensures
        screenshot_name(stamp) == "screenshot-"@ + stamp + ".png"@,
{
}

} // verus!
