//! Pure text pieces of the general code generation: indentation and the
//! fixed item skeletons whose lines are computed from names alone. The
//! functions return the lines; writing them out is the caller's work.

use vstd::prelude::*;

verus! {

/// `n` levels of indentation, four spaces each.
pub open spec fn tabs_spec(n: int) -> Seq<char>
    decreases n,
{
    if n <= 0 {
        Seq::<char>::empty()
    } else {
        "    "@ + tabs_spec(n - 1)
    }
}

proof fn lemma_tabs_push(n: int)
    requires
        n >= 0,
    ensures
        tabs_spec(n + 1) == tabs_spec(n) + "    "@,
    decreases n,
{
    if n == 0 {
        assert(tabs_spec(1) =~= tabs_spec(0) + "    "@);
    } else {
        lemma_tabs_push(n - 1);
        assert("    "@ + (tabs_spec(n - 1) + "    "@) =~= ("    "@ + tabs_spec(n - 1)) + "    "@);
    }
}

/// The indentation text for a nesting level; a negative level indents
/// nothing.
pub fn tabs(num: i32) -> (r: String)
    ensures
        r@ == tabs_spec(num as int),
{
    let mut acc = String::new();
    if num <= 0 {
        return acc;
    }
    let mut i: i32 = 0;
    while i < num
        invariant
            0 <= i <= num,
            acc@ == tabs_spec(i as int),
        decreases num - i,
    {
        acc.append("    ");
        proof {
            lemma_tabs_push(i as int);
        }
        i += 1;
    }
    acc
}

/// The lines declaring a child type: a blank separator and the alias of the
/// wrapped foreign object.
pub fn objects_child_type(ty_name: &str, glib_name: &str) -> (r: Vec<String>)
    ensures
        r@.len() == 2,
        r@[0]@ == Seq::<char>::empty(),
        r@[1]@ == "pub type "@ + ty_name@ + " = Object<ffi::"@ + glib_name@ + ">;"@,
{
    let mut line: String = "pub type ".to_owned();
    line.append(ty_name);
    line.append(" = Object<ffi::");
    line.append(glib_name);
    line.append(">;");
    let mut out: Vec<String> = Vec::new();
    out.push(String::new());
    out.push(line);
    out
}

/// The lines of the static-type impl for a generated type: the fixed
/// skeleton around the foreign type-getter call.
pub fn impl_static_type(ty_name: &str, glib_func_name: &str) -> (r: Vec<String>)
    ensures
        r@.len() == 7,
        r@[0]@ == Seq::<char>::empty(),
        r@[1]@ == "impl types::StaticType for "@ + ty_name@ + " {"@,
        r@[2]@ == tabs_spec(1) + "#[inline]"@,
        r@[3]@ == tabs_spec(1) + "fn static_type() -> types::Type {"@,
        r@[4]@ == tabs_spec(2) + "from_glib(ffi::"@ + glib_func_name@ + "())"@,
        r@[5]@ == tabs_spec(1) + "}"@,
        r@[6]@ == "}"@,
{
    let mut out: Vec<String> = Vec::new();
    out.push(String::new());
    let mut l1: String = "impl types::StaticType for ".to_owned();
    l1.append(ty_name);
    l1.append(" {");
    out.push(l1);
    let t1 = tabs(1);
    let t2 = tabs(2);
    let mut l2: String = t1.clone();
    l2.append("#[inline]");
    out.push(l2);
    let mut l3: String = t1.clone();
    l3.append("fn static_type() -> types::Type {");
    out.push(l3);
    let mut l4: String = t2.clone();
    l4.append("from_glib(ffi::");
    l4.append(glib_func_name);
    l4.append("())");
    out.push(l4);
    let mut l5: String = t1.clone();
    l5.append("}");
    out.push(l5);
    out.push("}".to_owned());
    out
}

} // verus!

verus! {

/// A library version: major, minor and patch numbers.
#[derive(Clone, Copy, PartialEq, Eq, Structural, Debug)]
pub struct Version {
    pub major: u16,
    pub minor: u16,
    pub patch: u16,
}

/// Lexicographic order on versions.
pub open spec fn version_ge(a: Version, b: Version) -> bool {
    ||| a.major > b.major
    ||| (a.major == b.major && a.minor > b.minor)
    ||| (a.major == b.major && a.minor == b.minor && a.patch >= b.patch)
}

/// Whether one version is at least another.
pub fn version_at_least(a: Version, b: Version) -> (r: bool)
    ensures
        r == version_ge(a, b),
{
    if a.major != b.major {
        a.major > b.major
    } else if a.minor != b.minor {
        a.minor > b.minor
    } else {
        a.patch >= b.patch
    }
}

/// The decimal digit for one value below ten.
pub open spec fn dec_digit(d: int) -> char {
    if d == 0 {
        '0'
    } else if d == 1 {
        '1'
    } else if d == 2 {
        '2'
    } else if d == 3 {
        '3'
    } else if d == 4 {
        '4'
    } else if d == 5 {
        '5'
    } else if d == 6 {
        '6'
    } else if d == 7 {
        '7'
    } else if d == 8 {
        '8'
    } else {
        '9'
    }
}

/// The decimal text of a non-negative number, most significant digit
/// first.
pub open spec fn dec_spec(n: int) -> Seq<char>
    decreases n,
{
    if n < 10 {
        seq![dec_digit(n)]
    } else {
        dec_spec(n / 10) + seq![dec_digit(n % 10)]
    }
}

fn dec_digit_char(d: u16) -> (r: char)
    requires
        d < 10,
    ensures
        r == dec_digit(d as int),
{
    match d {
        0 => '0',
        1 => '1',
        2 => '2',
        3 => '3',
        4 => '4',
        5 => '5',
        6 => '6',
        7 => '7',
        8 => '8',
        _ => '9',
    }
}

/// The decimal text of a number.
pub fn u16_to_dec(n: u16) -> (r: String)
    ensures
        r@ == dec_spec(n as int),
    decreases n,
{
    if n < 10 {
        crate::strutil::char_to_string(dec_digit_char(n))
    } else {
        let mut s = u16_to_dec(n / 10);
        let last = crate::strutil::char_to_string(dec_digit_char(n % 10));
        s.append(last.as_str());
        s
    }
}

/// The conditional-compilation attribute line guarding a versioned item:
/// present exactly when the item carries a version at least the configured
/// floor; indented, commented out on demand, naming the feature derived
/// from the crate name and the version's major and minor numbers. The
/// caller supplies the crate's already-lowered name.
pub fn version_condition_string(
    crate_lower: &str,
    min_cfg_version: Version,
    version: Option<Version>,
    commented: bool,
    indent: i32,
) -> (r: Option<String>)
    ensures
        match version {
            Some(v) => if version_ge(v, min_cfg_version) {
                r matches Some(s) && s@ == tabs_spec(indent as int) + (if commented {
                    "//"@
                } else {
                    Seq::<char>::empty()
                }) + "#[cfg(feature = \""@ + crate_lower@ + "_v"@ + dec_spec(v.major as int)
                    + "_"@ + dec_spec(v.minor as int) + "\")]"@
            } else {
                r is None
            },
            None => r is None,
        },
{
    match version {
        Some(v) => {
            if version_at_least(v, min_cfg_version) {
                let mut s = tabs(indent);
                if commented {
                    s.append("//");
                }
                s.append("#[cfg(feature = \"");
                s.append(crate_lower);
                s.append("_v");
                let major = u16_to_dec(v.major);
                s.append(major.as_str());
                s.append("_");
                let minor = u16_to_dec(v.minor);
                s.append(minor.as_str());
                s.append("\")]");
                Some(s)
            } else {
                None
            }
        },
        None => None,
    }
}

} // verus!
