use vstd::prelude::*;
use vstd::string::StringExecFns;

verus! {

/// Whether the characters of `path` from `a` up to `b` are one of its
/// segments: a run of characters, not empty and as long as it can be, that
/// holds no `/`.
pub open spec fn is_segment(path: Seq<char>, a: int, b: int) -> bool {
    &&& 0 <= a < b <= path.len()
    &&& a == 0 || path[a - 1] == '/'
    &&& b == path.len() || path[b] == '/'
    &&& forall|k: int| a <= k < b ==> path[k] != '/'
}

/// Whether the segment is `.`, which names the directory it stands in.
pub open spec fn is_dot(path: Seq<char>, a: int, b: int) -> bool {
    b == a + 1 && path[a] == '.'
}

/// Whether the segment is `..`, which names the directory above.
pub open spec fn is_dot_dot(path: Seq<char>, a: int, b: int) -> bool {
    b == a + 2 && path[a] == '.' && path[a + 1] == '.'
}

/// Whether the segment from `a` up to `b` is the last of `path` that is not
/// `.`.
pub open spec fn is_last_component(path: Seq<char>, a: int, b: int) -> bool {
    &&& is_segment(path, a, b)
    &&& !is_dot(path, a, b)
    &&& forall|c: int, d: int| a < c && #[trigger] is_segment(path, c, d) ==> is_dot(path, c, d)
}

/// Whether `name` is the file name of `path`: its last component, which is
/// not `..`.
pub open spec fn is_file_name(path: Seq<char>, name: Seq<char>) -> bool {
    exists|a: int, b: int|
        #[trigger] is_last_component(path, a, b) && !is_dot_dot(path, a, b) && name
            == path.subrange(a, b)
}

/// Whether `path` has a file name: it has none where it is empty, holds
/// nothing but `/` and `.` segments, or ends in `..`.
pub open spec fn has_file_name(path: Seq<char>) -> bool {
    exists|a: int, b: int| #[trigger] is_last_component(path, a, b) && !is_dot_dot(path, a, b)
}

/// The directory that holds one entry for each block device.
pub open spec fn block_class() -> Seq<char> {
    "/sys/class/block/"@
}

/// The name, within the entry of a device, of the attribute that tells
/// whether the device is removable.
pub open spec fn removable_entry() -> Seq<char> {
    "/removable"@
}

/// A path has at most one last component.
pub proof fn lemma_one_last_component(path: Seq<char>, a: int, b: int, c: int, d: int)
    requires
        is_last_component(path, a, b),
        is_last_component(path, c, d),
    ensures
        a == c,
        b == d,
{
    if a < c {
        assert(is_segment(path, c, d));
    } else if c < a {
        assert(is_segment(path, a, b));
    } else if b < d {
        assert(path[b] == '/');
    } else if d < b {
        assert(path[d] == '/');
    }
}

/// A path has at most one file name.
pub proof fn lemma_one_file_name(path: Seq<char>, name: Seq<char>, other: Seq<char>)
    requires
        is_file_name(path, name),
        is_file_name(path, other),
    ensures
        name == other,
{
    let (a, b) = choose|a: int, b: int|
        #[trigger] is_last_component(path, a, b) && !is_dot_dot(path, a, b) && name
            == path.subrange(a, b);
    let (c, d) = choose|c: int, d: int|
        #[trigger] is_last_component(path, c, d) && !is_dot_dot(path, c, d) && other
            == path.subrange(c, d);
    lemma_one_last_component(path, a, b, c, d);
}

/// The file name of `path`: its last component, not counting `.` and empty
/// segments; none where that component is `..` or there is no component.
pub fn file_name(path: &str) -> (r: Option<String>)
    ensures
        r is Some <==> has_file_name(path@),
        r matches Some(name) ==> is_file_name(path@, name@),
{
    let ghost p = path@;
    let mut end: usize = path.unicode_len();
    loop
        invariant
            p == path@,
            end <= p.len(),
            end == 0 || end == p.len() || p[end as int] == '/' || p[end - 1] == '/',
            forall|c: int, d: int| end < d && #[trigger] is_segment(p, c, d) ==> is_dot(p, c, d),
        decreases end,
    {
        let ghost reached = end;
        while end > 0 && path.get_char(end - 1) == '/'
            invariant
                p == path@,
                end <= reached <= p.len(),
                end == 0 || end == p.len() || p[end as int] == '/' || p[end - 1] == '/',
                forall|c: int, d: int|
                    end < d && #[trigger] is_segment(p, c, d) ==> is_dot(p, c, d),
            decreases end,
        {
            proof {
                assert forall|c: int, d: int|
                    end - 1 < d && #[trigger] is_segment(p, c, d) implies is_dot(p, c, d) by {
                    if d == end {
                        assert(p[d - 1] == '/');
                    }
                }
            }
            end = end - 1;
        }
        if end == 0 {
            proof {
                assert forall|a: int, b: int| !is_last_component(p, a, b) by {
                    if is_segment(p, a, b) {
                        assert(is_dot(p, a, b));
                    }
                }
            }
            return None;
        }
        let mut start: usize = end - 1;
        while start > 0 && path.get_char(start - 1) != '/'
            invariant
                p == path@,
                start < end <= p.len(),
                forall|k: int| start <= k < end ==> p[k] != '/',
            decreases start,
        {
            start = start - 1;
        }
        assert(is_segment(p, start as int, end as int));
        proof {
            // A segment that reaches into this one is this one.
            assert forall|c: int, d: int|
                start < d && #[trigger] is_segment(p, c, d) && !(c == start && d
                    == end) implies is_dot(p, c, d) by {
                if d <= end {
                    if d < end {
                        assert(p[d] == '/');
                    } else if c < start {
                        assert(p[start - 1] == '/');
                    } else {
                        assert(p[c - 1] == '/');
                    }
                }
            }
        }
        let dot: bool = end - start == 1 && path.get_char(start) == '.';
        if !dot {
            assert(is_last_component(p, start as int, end as int));
            proof {
                assert forall|a: int, b: int| #[trigger]
                    is_last_component(p, a, b) implies a == start && b == end by {
                    lemma_one_last_component(p, a, b, start as int, end as int);
                }
            }
            if end - start == 2 && path.get_char(start) == '.' && path.get_char(start + 1) == '.' {
                return None;
            }
            let name = path.substring_char(start, end).to_owned();
            return Some(name);
        }
        end = start;
    }
}

/// The path of the attribute that tells whether the block device named
/// `device_name` is removable.
pub fn removable_attribute(device_name: &str) -> (r: String)
    ensures
        r@ == block_class() + device_name@ + removable_entry(),
{
    let mut path = String::from_str("/sys/class/block/");
    path.append(device_name);
    path.append("/removable");
    path
}

/// The path to read by. `link_target` is what the device path points to
/// where it is a symbolic link.
pub open spec fn path_to_name(device_path: Seq<char>, link_target: Option<Seq<char>>) -> Seq<
    char,
> {
    match link_target {
        Some(target) => target,
        None => device_path,
    }
}

/// Where to read whether a device is removable: the attribute of the block
/// device named as the file that the device path points to, if it is a
/// symbolic link, and as the device path's own file else. There is nothing
/// to read where that path has no file name.
pub fn attribute_path(device_path: &str, link_target: Option<&str>) -> (r: Option<String>)
    ensures
        r is Some <==> has_file_name(path_to_name(device_path@, strs_view(link_target))),
        r matches Some(path) ==> exists|name: Seq<char>|
            #[trigger] is_file_name(path_to_name(device_path@, strs_view(link_target)), name)
                && path@ == block_class() + name + removable_entry(),
{
    let named = match link_target {
        Some(target) => target,
        None => device_path,
    };
    match file_name(named) {
        Some(name) => Some(removable_attribute(name.as_str())),
        None => None,
    }
}

/// The view of an optional string.
pub open spec fn strs_view(s: Option<&str>) -> Option<Seq<char>> {
    match s {
        Some(s) => Some(s@),
        None => None,
    }
}

/// Whether what was read of the attribute says that the device is
/// removable: it does if there was a first byte to read and it is the digit
/// one. `first_byte` is none where the attribute could not be opened or read.
pub fn says_removable(first_byte: Option<u8>) -> (r: bool)
    ensures
        r == (first_byte == Some(49u8)),
{
    match first_byte {
        Some(byte) => byte == 49,
        None => false,
    }
}

} // verus!
