//! Which file extensions the tools treat as audio inputs.
use vstd::prelude::*;

verus! {

broadcast use vstd::string::group_string_axioms;

/// ASCII lowercase of one character; every other character is kept.
pub open spec fn ascii_lower(c: char) -> char {
    if 'A' <= c && c <= 'Z' {
        ((c as u32) + 32) as char
    } else {
        c
    }
}

/// ASCII lowercase of every character of `s`.
pub open spec fn ascii_lowercase(s: Seq<char>) -> Seq<char> {
    s.map_values(|c: char| ascii_lower(c))
}

/// Two strings are equal when ASCII letters are compared without regard to case
/// (what `str::eq_ignore_ascii_case` decides).
pub open spec fn eq_ignore_ascii_case(a: Seq<char>, b: Seq<char>) -> bool {
    ascii_lowercase(a) == ascii_lowercase(b)
}

/// The extensions (without the dot) that the tools accept, in lower case.
pub open spec fn supported_audio_extensions() -> Seq<Seq<char>> {
    seq!["m4a"@, "mp3"@, "flac"@, "wav"@]
}

/// `ext` names a supported audio format, ignoring ASCII case.
pub open spec fn is_supported_extension(ext: Seq<char>) -> bool {
    exists|i: int|
        0 <= i < supported_audio_extensions().len() && eq_ignore_ascii_case(
            #[trigger] supported_audio_extensions()[i],
            ext,
        )
}

fn lower_code(x: char) -> (r: u32)
    ensures
        r == ascii_lower(x) as u32,
{
    if 'A' <= x && x <= 'Z' {
        (x as u32) + 32
    } else {
        x as u32
    }
}

/// Decides `eq_ignore_ascii_case` on two strings.
pub fn str_eq_ignore_ascii_case(a: &str, b: &str) -> (r: bool)
    ensures
        r == eq_ignore_ascii_case(a@, b@),
{
    let n = a.unicode_len();
    if n != b.unicode_len() {
        proof {
            assert(ascii_lowercase(a@).len() != ascii_lowercase(b@).len());
        }
        return false;
    }
    let mut i: usize = 0;
    while i < n
        invariant
            i <= n,
            n == a@.len(),
            n == b@.len(),
            forall|j: int| 0 <= j < i ==> ascii_lower(#[trigger] a@[j]) == ascii_lower(b@[j]),
        decreases n - i,
    {
        let x = a.get_char(i);
        let y = b.get_char(i);
        if lower_code(x) != lower_code(y) {
            proof {
                assert(ascii_lowercase(a@)[i as int] != ascii_lowercase(b@)[i as int]);
            }
            return false;
        }
        i = i + 1;
    }
    assert(ascii_lowercase(a@) =~= ascii_lowercase(b@));
    true
}

/// Whether `ext` (no dot) is a supported audio extension, ASCII case-insensitive.
pub fn is_supported_audio_extension(ext: &str) -> (r: bool)
    ensures
        r == is_supported_extension(ext@),
{
    let names: [&str; 4] = ["m4a", "mp3", "flac", "wav"];
    let mut i: usize = 0;
    while i < 4
        invariant
            i <= 4,
            forall|j: int| 0 <= j < 4 ==> #[trigger] names@[j]@ == supported_audio_extensions()[j],
            forall|j: int|
                0 <= j < i ==> !eq_ignore_ascii_case(
                    #[trigger] supported_audio_extensions()[j],
                    ext@,
                ),
        decreases 4 - i,
    {
        if str_eq_ignore_ascii_case(names[i], ext) {
            return true;
        }
        i = i + 1;
    }
    false
}

/// Supportedness depends on the extension only up to ASCII case: two extensions
/// that differ only in the case of ASCII letters are both supported or both not.
pub proof fn lemma_supported_ignores_ascii_case(a: Seq<char>, b: Seq<char>)
    requires
        eq_ignore_ascii_case(a, b),
    ensures
        is_supported_extension(a) == is_supported_extension(b),
{
    if is_supported_extension(a) {
        let i = choose|i: int|
            0 <= i < supported_audio_extensions().len() && eq_ignore_ascii_case(
                #[trigger] supported_audio_extensions()[i],
                a,
            );
        assert(eq_ignore_ascii_case(supported_audio_extensions()[i], b));
    }
    if is_supported_extension(b) {
        let i = choose|i: int|
            0 <= i < supported_audio_extensions().len() && eq_ignore_ascii_case(
                #[trigger] supported_audio_extensions()[i],
                b,
            );
        assert(eq_ignore_ascii_case(supported_audio_extensions()[i], a));
    }
}

/// The supported extensions are exactly the four lower-case names `m4a`, `mp3`,
/// `flac` and `wav`, each written in any mix of ASCII case.
pub proof fn lemma_supported_exactly(ext: Seq<char>)
    ensures
        is_supported_extension(ext) <==> (ascii_lowercase(ext) == "m4a"@ || ascii_lowercase(ext)
            == "mp3"@ || ascii_lowercase(ext) == "flac"@ || ascii_lowercase(ext) == "wav"@),
{
    reveal_strlit("m4a");
    reveal_strlit("mp3");
    reveal_strlit("flac");
    reveal_strlit("wav");
    let names = supported_audio_extensions();
    assert forall|i: int| 0 <= i < names.len() implies #[trigger] ascii_lowercase(names[i])
        == names[i] by {
        assert(ascii_lowercase(names[i]) =~= names[i]);
    }
    if ascii_lowercase(ext) == "m4a"@ {
        assert(eq_ignore_ascii_case(names[0], ext));
    }
    if ascii_lowercase(ext) == "mp3"@ {
        assert(eq_ignore_ascii_case(names[1], ext));
    }
    if ascii_lowercase(ext) == "flac"@ {
        assert(eq_ignore_ascii_case(names[2], ext));
    }
    if ascii_lowercase(ext) == "wav"@ {
        assert(eq_ignore_ascii_case(names[3], ext));
    }
}

/// `s` spells `name` with any of its ASCII lower-case letters written in upper
/// case: same length, and each character is the one of `name` or, for a
/// letter `a`-`z`, the upper-case letter 32 code points below it.
pub open spec fn spells_in_any_case(s: Seq<char>, name: Seq<char>) -> bool {
    &&& s.len() == name.len()
    &&& forall|i: int|
        0 <= i < s.len() ==> #[trigger] s[i] == name[i] || ('a' <= name[i] && name[i] <= 'z'
            && s[i] as u32 + 32 == name[i] as u32)
}

/// Every spelling of `m4a`, `mp3`, `flac` or `wav` in any mix of ASCII upper and
/// lower case (such as `FLAC`, `Wav`, `M4A`) is a supported extension.
pub proof fn lemma_any_case_spelling_supported(s: Seq<char>, k: int)
    requires
        0 <= k < 4,
        spells_in_any_case(s, supported_audio_extensions()[k]),
    ensures
        is_supported_extension(s),
{
    reveal_strlit("m4a");
    reveal_strlit("mp3");
    reveal_strlit("flac");
    reveal_strlit("wav");
    let name = supported_audio_extensions()[k];
    assert forall|i: int| 0 <= i < name.len() implies !('A' <= #[trigger] name[i] && name[i] <= 'Z')
        by {
        if k == 0 {
            assert(name =~= seq!['m', '4', 'a']);
        } else if k == 1 {
            assert(name =~= seq!['m', 'p', '3']);
        } else if k == 2 {
            assert(name =~= seq!['f', 'l', 'a', 'c']);
        } else {
            assert(name =~= seq!['w', 'a', 'v']);
        }
    }
    assert(ascii_lowercase(s) =~= ascii_lowercase(name));
}

/// ASCII upper-case letters are lowered to the letter 32 code points above
/// them; every other character is left as it is.
pub proof fn lemma_ascii_lower_letters(c: char)
    ensures
        'A' <= c && c <= 'Z' ==> ascii_lower(c) as u32 == c as u32 + 32 && 'a' <= ascii_lower(c)
            && ascii_lower(c) <= 'z',
        !('A' <= c && c <= 'Z') ==> ascii_lower(c) == c,
{
}

} // verus!
