use vstd::prelude::*;

verus! {

/// Base data folder, where uncompressed files are placed.
pub const BASE_DATA_FOLDER: &'static str = "data/";

/// Folder prefix for World files (`.rsw`).
pub const WORLD_FILES_FOLDER: &'static str = "data/";

/// Folder prefix for Ground files (`.gnd`).
pub const GROUND_FILES_FOLDER: &'static str = "data/";

/// Folder prefix for Altitude files (`.gat`).
pub const ALTITUDE_FILES_FOLDER: &'static str = "data/";

/// Folder prefix for Model (animated props) files (`.rsm`).
pub const MODEL_FILES_FOLDER: &'static str = "data/model/";

/// Folder prefix for Sprite files (`.spr`).
pub const SPR_FILES_FOLDER: &'static str = "data/sprite/";

/// Folder prefix for Actor files (`.act`).
pub const ACT_FILES_FOLDER: &'static str = SPR_FILES_FOLDER;

/// Folder prefix for Texture files (`.bmp`, `.jpg`, `.tga`).
pub const TEXTURE_FILES_FOLDER: &'static str = "data/texture/";

/// Folder prefix for Audio files (`.wav`).
pub const WAV_FILES_FOLDER: &'static str = "data/wav/";

/// Folder prefix for Texture files for water types (`.bmp`).
pub const WATER_TEXTURE_FILES_FOLDER: &'static str = "data/texture/워터/";

/// `first` followed by `second`.
pub fn join_path(first: &str, second: &str) -> (joined: String)
    ensures
        joined@ == first@ + second@,
{
    let mut joined = String::from_str(first);
    joined.append(second);
    joined
}

/// `first`, then `second`, then `third`.
pub fn join_path3(first: &str, second: &str, third: &str) -> (joined: String)
    ensures
        joined@ == first@ + second@ + third@,
{
    let mut joined = String::from_str(first);
    joined.append(second);
    joined.append(third);
    joined
}

/// `text` ends with `suffix`.
pub open spec fn has_suffix(text: Seq<char>, suffix: Seq<char>) -> bool {
    suffix.len() <= text.len() && text.subrange(text.len() - suffix.len(), text.len() as int)
        == suffix
}

/// Whether `text` ends with `suffix`.
pub fn ends_with(text: &str, suffix: &str) -> (r: bool)
    ensures
        r == has_suffix(text@, suffix@),
{
    let text_len = text.unicode_len();
    let suffix_len = suffix.unicode_len();
    if suffix_len > text_len {
        return false;
    }
    let start = text_len - suffix_len;
    let mut i: usize = 0;
    while i < suffix_len
        invariant
            text_len == text@.len(),
            suffix_len == suffix@.len(),
            suffix_len <= text_len,
            start == text_len - suffix_len,
            i <= suffix_len,
            forall|k: int| 0 <= k < i ==> text@[start + k] == suffix@[k],
        decreases suffix_len - i,
    {
        if text.get_char(start + i) != suffix.get_char(i) {
            assert(text@.subrange(start as int, text_len as int)[i as int] != suffix@[i as int]);
            return false;
        }
        i = i + 1;
    }
    assert(text@.subrange(start as int, text_len as int) =~= suffix@);
    true
}

/// `text` with every leading repetition of `prefix` removed.
pub open spec fn strip_prefixes(text: Seq<char>, prefix: Seq<char>) -> Seq<char>
    decreases text.len(),
{
    if prefix.len() > 0 && prefix.len() <= text.len() && text.take(prefix.len() as int) == prefix {
        strip_prefixes(text.skip(prefix.len() as int), prefix)
    } else {
        text
    }
}

/// Whether `text` holds `prefix` from position `start` on.
fn matches_at(text: &str, text_len: usize, start: usize, prefix: &str, prefix_len: usize) -> (r: bool)
    requires
        text_len == text@.len(),
        prefix_len == prefix@.len(),
        start <= text_len,
    ensures
        r == (prefix_len <= text_len - start && text@.skip(start as int).take(prefix_len as int)
            == prefix@),
{
    if prefix_len > text_len - start {
        return false;
    }
    let mut i: usize = 0;
    while i < prefix_len
        invariant
            text_len == text@.len(),
            prefix_len == prefix@.len(),
            start + prefix_len <= text_len,
            i <= prefix_len,
            forall|k: int| 0 <= k < i ==> text@[start + k] == prefix@[k],
        decreases prefix_len - i,
    {
        if text.get_char(start + i) != prefix.get_char(i) {
            assert(text@.skip(start as int).take(prefix_len as int)[i as int] != prefix@[i as int]);
            return false;
        }
        i = i + 1;
    }
    assert(text@.skip(start as int).take(prefix_len as int) =~= prefix@);
    true
}

/// `text` with every leading repetition of `prefix` removed.
pub fn trim_start_matches(text: &str, prefix: &str) -> (trimmed: String)
    ensures
        trimmed@ == strip_prefixes(text@, prefix@),
{
    let text_len = text.unicode_len();
    let prefix_len = prefix.unicode_len();
    let mut start: usize = 0;
    proof {
        assert(text@.skip(0) =~= text@);
    }
    if prefix_len > 0 {
        while matches_at(text, text_len, start, prefix, prefix_len)
            invariant
                text_len == text@.len(),
                prefix_len == prefix@.len(),
                prefix_len > 0,
                start <= text_len,
                strip_prefixes(text@.skip(start as int), prefix@) == strip_prefixes(text@, prefix@),
            decreases text_len - start,
        {
            proof {
                assert(text@.skip(start as int).skip(prefix_len as int) =~= text@.skip(
                    start + prefix_len,
                ));
            }
            start = start + prefix_len;
        }
    }
    proof {
        assert(text@.skip(0) =~= text@);
        assert(text@.subrange(start as int, text_len as int) =~= text@.skip(start as int));
    }
    String::from_str(text.substring_char(start, text_len))
}

} // verus!
