//! Styling of user-facing output, with a small markdown prettifier
//! (bold, italic and code spans; no nesting).

use vstd::prelude::*;

use crate::text::str_to_chars;
use vstd::string::{StrSliceExecFns, StringExecFns};

verus! {

/// Markdown mode.
#[derive(Debug, Clone, Copy, PartialEq, Eq, Structural)]
pub enum Mode {
    /// Bold (`**`).
    Bold,
    /// Italic (`*`).
    Ita,
    /// Code (backtick).
    Code,
}

impl Mode {
    /// Splitting a text at its first style marker, scanning from `i`:
    /// the part before the marker, and the mode with the part after it.
    pub open spec fn spec_split(s: Seq<char>, i: int) -> (Seq<char>, Option<(Mode, Seq<char>)>)
        decreases s.len() - i,
    {
        if i < 0 || i >= s.len() {
            (s, None)
        } else if s[i] == '`' {
            (s.take(i), Some((Mode::Code, s.skip(i + 1))))
        } else if s[i] == '*' {
            if i + 1 < s.len() && s[i + 1] == '*' {
                (s.take(i), Some((Mode::Bold, s.skip(i + 2))))
            } else {
                (s.take(i), Some((Mode::Ita, s.skip(i + 1))))
            }
        } else {
            Mode::spec_split(s, i + 1)
        }
    }

    /// A suffix handed back by a split is strictly shorter than the text.
    proof fn lemma_split_shorter(s: Seq<char>, i: int)
        requires
            0 <= i,
        ensures
            Mode::spec_split(s, i).1 matches Some((m, suf)) ==> suf.len() < s.len(),
        decreases s.len() - i,
    {
        if i < s.len() && s[i] != '`' && s[i] != '*' {
            Mode::lemma_split_shorter(s, i + 1);
        }
    }

    /// Splits a text at its first style marker.
    #[verifier::loop_isolation(false)]
    pub fn split(s: &str) -> (r: (&str, Option<(Mode, &str)>))
        ensures
            r.0@ == Mode::spec_split(s@, 0).0,
            match (r.1, Mode::spec_split(s@, 0).1) {
                (None, None) => true,
                (Some((m1, suf1)), Some((m2, suf2))) => m1 == m2 && suf1@ == suf2,
                (_, _) => false,
            },
    {
        let n = s.unicode_len();
        let chars = str_to_chars(s);
        let mut i: usize = 0;
        while i < n
            invariant
                0 <= i <= n,
                Mode::spec_split(s@, 0) == Mode::spec_split(s@, i as int),
            decreases n - i,
        {
            let c = chars[i];
            if c == '`' {
                return (s.substring_char(0, i), Some((Mode::Code, s.substring_char(i + 1, n))));
            }
            if c == '*' {
                if i + 1 < n {
                    if chars[i + 1] == '*' {
                        return (
                            s.substring_char(0, i),
                            Some((Mode::Bold, s.substring_char(i + 2, n))),
                        );
                    }
                }
                return (s.substring_char(0, i), Some((Mode::Ita, s.substring_char(i + 1, n))));
            }
            i += 1;
        }
        (s, None)
    }
}

/// The styling a markdown mode selects.
pub open spec fn styled_spec<S: Style>(st: S, m: Mode, s: Seq<char>) -> Seq<char> {
    match m {
        Mode::Bold => st.bold_spec(s),
        Mode::Ita => st.ita_spec(s),
        Mode::Code => st.code_spec(s),
    }
}

/// What the prettifier produces from the state it walks with: the text
/// still to scan, the mode that is open, and the output so far. An
/// unbalanced or nested mode gives the whole original text back.
pub open spec fn spec_pretty_from<S: Style>(
    st: S,
    orig: Seq<char>,
    cur: Seq<char>,
    mode: Option<Mode>,
    acc: Seq<char>,
) -> Seq<char>
    decreases cur.len(),
    when cur.len() >= 0
    via spec_pretty_from_decreases::<S>
{
    if cur.len() == 0 {
        acc
    } else {
        let (pref, rest) = Mode::spec_split(cur, 0);
        match rest {
            None => match mode {
                Some(_) => orig,
                None => acc + st.plain_spec(pref),
            },
            Some((m, suff)) => match mode {
                Some(om) => if om == m {
                    spec_pretty_from(st, orig, suff, None, acc + styled_spec(st, m, pref))
                } else {
                    orig
                },
                None => spec_pretty_from(st, orig, suff, Some(m), acc + st.plain_spec(pref)),
            },
        }
    }
}

#[via_fn]
proof fn spec_pretty_from_decreases<S: Style>(
    st: S,
    orig: Seq<char>,
    cur: Seq<char>,
    mode: Option<Mode>,
    acc: Seq<char>,
) {
    Mode::lemma_split_shorter(cur, 0);
}

/// What the prettifier produces for a whole text.
pub open spec fn spec_pretty_md<S: Style>(st: S, s: Seq<char>) -> Seq<char> {
    spec_pretty_from(st, s, s, None, Seq::empty())
}

/// Style trait: how user-facing text is decorated.
pub trait Style: Sized {
    /// Bold styling, at the spec level.
    spec fn bold_spec(&self, s: Seq<char>) -> Seq<char>;

    /// Red styling, at the spec level.
    spec fn red_spec(&self, s: Seq<char>) -> Seq<char>;

    /// Green styling, at the spec level.
    spec fn green_spec(&self, s: Seq<char>) -> Seq<char>;

    /// Underline styling, at the spec level.
    spec fn under_spec(&self, s: Seq<char>) -> Seq<char>;

    /// Gray styling, at the spec level.
    spec fn gray_spec(&self, s: Seq<char>) -> Seq<char>;

    /// Italic styling, at the spec level.
    spec fn ita_spec(&self, s: Seq<char>) -> Seq<char>;

    /// Code styling, at the spec level.
    spec fn code_spec(&self, s: Seq<char>) -> Seq<char>;

    /// Unstyled text, at the spec level.
    spec fn plain_spec(&self, s: Seq<char>) -> Seq<char>;

    /// Bold styling.
    fn bold(&self, s: &str) -> (r: String)
        ensures
            r@ == self.bold_spec(s@),
    ;

    /// Red styling.
    fn red(&self, s: &str) -> (r: String)
        ensures
            r@ == self.red_spec(s@),
    ;

    /// Green styling.
    fn green(&self, s: &str) -> (r: String)
        ensures
            r@ == self.green_spec(s@),
    ;

    /// Underline styling.
    fn under(&self, s: &str) -> (r: String)
        ensures
            r@ == self.under_spec(s@),
    ;

    /// Gray styling.
    fn gray(&self, s: &str) -> (r: String)
        ensures
            r@ == self.gray_spec(s@),
    ;

    /// Italic.
    fn ita(&self, s: &str) -> (r: String)
        ensures
            r@ == self.ita_spec(s@),
    ;

    /// Code style.
    fn code(&self, s: &str) -> (r: String)
        ensures
            r@ == self.code_spec(s@),
    ;

    /// Unstyled text.
    fn plain(&self, s: &str) -> (r: String)
        ensures
            r@ == self.plain_spec(s@),
    ;
}

/// Prettifies some markdown; no nesting supported. Text outside any span
/// passes through the style's plain rendering; an unbalanced or nested
/// span gives the whole text back untouched.
#[verifier::loop_isolation(false)]
pub fn pretty_md<S: Style>(style: &S, s: &str) -> (r: String)
    ensures
        r@ == spec_pretty_md(*style, s@),
{
    let mut res = String::new();
    let mut current: &str = s;
    let mut current_mode: Option<Mode> = None;
    while !current.is_empty()
        invariant
            spec_pretty_from(*style, s@, current@, current_mode, res@) == spec_pretty_md(
                *style,
                s@,
            ),
        decreases current@.len(),
    {
        let ghost cur0 = current@;
        let ghost mode0 = current_mode;
        let ghost res0 = res@;
        proof {
            Mode::lemma_split_shorter(current@, 0);
        }
        let (pref, rest) = Mode::split(current);
        match rest {
            None => {
                if current_mode.is_some() {
                    // unbalanced modes, give up.
                    return s.to_owned();
                } else {
                    let styled = style.plain(pref);
                    res.append(styled.as_str());
                    proof {
                        assert(res@ == spec_pretty_md(*style, s@));
                    }
                    return res;
                }
            },
            Some((mode, suff)) => {
                let prev = current_mode;
                current = suff;
                match prev {
                    Some(omode) => {
                        current_mode = None;
                        if omode == mode {
                            let styled = match mode {
                                Mode::Bold => style.bold(pref),
                                Mode::Ita => style.ita(pref),
                                Mode::Code => style.code(pref),
                            };
                            res.append(styled.as_str());
                            proof {
                                assert(res@ == res0 + styled_spec(
                                    *style,
                                    mode,
                                    Mode::spec_split(cur0, 0).0,
                                ));
                                assert(spec_pretty_from(*style, s@, cur0, mode0, res0)
                                    == spec_pretty_from(
                                    *style,
                                    s@,
                                    current@,
                                    current_mode,
                                    res@,
                                ));
                            }
                        } else {
                            // nested or unbalanced mode, give up
                            return s.to_owned();
                        }
                    },
                    None => {
                        let styled = style.plain(pref);
                        res.append(styled.as_str());
                        current_mode = Some(mode);
                        proof {
                            assert(res@ == res0 + style.plain_spec(Mode::spec_split(cur0, 0).0));
                            assert(spec_pretty_from(*style, s@, cur0, mode0, res0)
                                == spec_pretty_from(*style, s@, current@, current_mode, res@));
                        }
                    },
                }
            },
        }
    }
    proof {
        assert(res@ == spec_pretty_md(*style, s@));
    }
    res
}

impl Style for () {
    /// Every styling is the identity: plain text stays plain.
    open spec fn bold_spec(&self, s: Seq<char>) -> Seq<char> {
        s
    }

    open spec fn red_spec(&self, s: Seq<char>) -> Seq<char> {
        s
    }

    open spec fn green_spec(&self, s: Seq<char>) -> Seq<char> {
        s
    }

    open spec fn under_spec(&self, s: Seq<char>) -> Seq<char> {
        s
    }

    open spec fn gray_spec(&self, s: Seq<char>) -> Seq<char> {
        s
    }

    open spec fn ita_spec(&self, s: Seq<char>) -> Seq<char> {
        s
    }

    open spec fn code_spec(&self, s: Seq<char>) -> Seq<char> {
        s
    }

    open spec fn plain_spec(&self, s: Seq<char>) -> Seq<char> {
        s
    }

    fn bold(&self, s: &str) -> String {
        s.to_owned()
    }

    fn red(&self, s: &str) -> String {
        s.to_owned()
    }

    fn green(&self, s: &str) -> String {
        s.to_owned()
    }

    fn under(&self, s: &str) -> String {
        s.to_owned()
    }

    fn gray(&self, s: &str) -> String {
        s.to_owned()
    }

    fn ita(&self, s: &str) -> String {
        s.to_owned()
    }

    fn code(&self, s: &str) -> String {
        s.to_owned()
    }

    fn plain(&self, s: &str) -> String {
        s.to_owned()
    }
}

} // verus!
