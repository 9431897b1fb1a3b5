//! Telling an invoice's artifacts apart by their file names.

use vstd::prelude::*;
use vstd::string::*;

verus! {

/// The position of the last dot in a file name, or -1 where it has none.
pub open spec fn last_dot(name: Seq<char>) -> int
    decreases name.len(),
{
    if name.len() == 0 {
        -1
    } else if name.last() == '.' {
        name.len() - 1
    } else {
        last_dot(name.drop_last())
    }
}

/// The extension of a file name: what follows its last dot. A name without a
/// dot has none, nor has one whose only dot is its first character, nor the
/// name of the parent directory.
pub open spec fn extension_of(name: Seq<char>) -> Option<Seq<char>> {
    let dot = last_dot(name);
    if dot <= 0 || name == seq!['.', '.'] {
        None
    } else {
        Some(name.subrange(dot + 1, name.len() as int))
    }
}

/// The extension that marks a preview image.
pub open spec fn preview_extension() -> Seq<char> {
    seq!['j', 'p', 'g']
}

/// Whether a file of this name is a preview image.
pub open spec fn is_preview_image(name: Seq<char>) -> bool {
    extension_of(name) == Some(preview_extension())
}

/// The last dot is a dot, and no dot follows it.
pub proof fn lemma_last_dot(name: Seq<char>)
    ensures
        -1 <= last_dot(name) < name.len(),
        last_dot(name) >= 0 ==> name[last_dot(name)] == '.',
        forall|i: int| last_dot(name) < i < name.len() ==> name[i] != '.',
    decreases name.len(),
{
    if name.len() > 0 && name.last() != '.' {
        lemma_last_dot(name.drop_last());
        assert forall|i: int| last_dot(name) < i < name.len() implies name[i] != '.' by {
            if i < name.len() - 1 {
                assert(name.drop_last()[i] == name[i]);
            }
        }
    }
}

/// A prefix that leaves out no dot has the same last dot as the whole name.
proof fn lemma_last_dot_prefix(name: Seq<char>, end: int)
    requires
        0 <= end <= name.len(),
        forall|i: int| end <= i < name.len() ==> name[i] != '.',
    ensures
        last_dot(name) == last_dot(name.subrange(0, end)),
    decreases name.len() - end,
{
    if end == name.len() {
        assert(name.subrange(0, end) =~= name);
    } else {
        let shorter = name.drop_last();
        lemma_last_dot_prefix(shorter, end);
        assert(shorter.subrange(0, end) =~= name.subrange(0, end));
    }
}

/// Where the extension of a file name begins, if it has one.
pub fn extension_start(name: &str) -> (start: Option<usize>)
    ensures
        match start {
            Some(at) => extension_of(name@) is Some && at == last_dot(name@) + 1,
            None => extension_of(name@) is None,
        },
{
    let len: usize = name.unicode_len();
    let mut end: usize = len;
    while end > 0
        invariant
            end <= len,
            len == name@.len(),
            forall|i: int| end <= i < len ==> name@[i] != '.',
        decreases end,
    {
        if name.get_char(end - 1) == '.' {
            proof {
                lemma_last_dot_prefix(name@, end as int);
                assert(name@.subrange(0, end as int).last() == '.');
            }
            if end == 1 {
                return None;
            }
            if len == 2 && end == 2 && name.get_char(0) == '.' {
                assert(name@ =~= seq!['.', '.']);
                return None;
            }
            assert(name@ != seq!['.', '.']) by {
                if name@ == seq!['.', '.'] {
                    assert(seq!['.', '.'].len() == 2);
                    assert(seq!['.', '.'][0] == '.');
                }
            }
            return Some(end);
        }
        end = end - 1;
    }
    proof {
        lemma_last_dot_prefix(name@, 0);
        assert(name@.subrange(0, 0).len() == 0);
    }
    None
}

/// Whether a file of this name is a preview image.
pub fn has_preview_extension(name: &str) -> (hit: bool)
    ensures
        hit == is_preview_image(name@),
{
    match extension_start(name) {
        None => false,
        Some(at) => {
            let len: usize = name.unicode_len();
            proof {
                lemma_last_dot(name@);
            }
            if len - at != 3 {
                assert(name@.subrange(at as int, len as int).len() != 3);
                return false;
            }
            let hit = name.get_char(at) == 'j' && name.get_char(at + 1) == 'p' && name.get_char(
                at + 2,
            ) == 'g';
            proof {
                let ext = name@.subrange(at as int, len as int);
                assert(ext[0] == name@[at as int]);
                assert(ext[1] == name@[at + 1]);
                assert(ext[2] == name@[at + 2]);
                if hit {
                    assert(ext =~= preview_extension());
                } else {
                    assert(preview_extension()[0] == 'j');
                    assert(preview_extension()[1] == 'p');
                    assert(preview_extension()[2] == 'g');
                }
            }
            hit
        },
    }
}

} // verus!
