//! Method descriptors: the textual encoding of method argument and return
//! types, e.g. `(Ljava/lang/String;I)V`. `MethodDescriptor::new` accepts a
//! full method signature and parses everything from the first `(` on.

use vstd::prelude::*;

verus! {

/// The first index `>= i` at which `c` occurs in `s`, if any.
pub open spec fn spec_find_from(s: Seq<char>, i: int, c: char) -> Option<int>
    decreases s.len() - i,
{
    if i < 0 || i >= s.len() {
        None
    } else if s[i] == c {
        Some(i)
    } else {
        spec_find_from(s, i + 1, c)
    }
}

/// The first index `>= i` holding something other than `[`.
pub open spec fn spec_skip_brackets(s: Seq<char>, i: int) -> int
    decreases s.len() - i,
{
    if 0 <= i < s.len() && s[i] == '[' {
        spec_skip_brackets(s, i + 1)
    } else {
        i
    }
}

pub open spec fn is_primitive_descriptor_char(c: char) -> bool {
    c == 'B' || c == 'S' || c == 'I' || c == 'J' || c == 'F' || c == 'D' || c == 'C' || c == 'Z'
        || c == 'V'
}

/// Where the type token starting at `i` ends (one past its last character):
/// any number of `[` dimensions followed by either a primitive sigil or an
/// `L`...`;` class reference.
pub open spec fn spec_token_end(s: Seq<char>, i: int) -> Option<int> {
    let b = spec_skip_brackets(s, i);
    if b >= s.len() {
        None
    } else if is_primitive_descriptor_char(s[b]) {
        Some(b + 1)
    } else if s[b] == 'L' {
        match spec_find_from(s, b, ';') {
            Some(e) => Some(e + 1),
            None => None,
        }
    } else {
        None
    }
}

/// The type token starting at `i`, with the offset one past its end.
pub open spec fn spec_read_token(s: Seq<char>, i: int) -> Option<(Seq<char>, int)> {
    match spec_token_end(s, i) {
        Some(end) => Some((s.subrange(i, end), end)),
        None => None,
    }
}

/// The argument tokens from offset `i` up to the closing `)`, with the offset
/// one past the `)`.
pub open spec fn spec_parse_args(s: Seq<char>, i: int) -> Option<(Seq<Seq<char>>, int)>
    decreases s.len() - i,
{
    if i < 0 || i >= s.len() {
        None
    } else if s[i] == ')' {
        Some((Seq::empty(), i + 1))
    } else {
        match spec_read_token(s, i) {
            Some((tok, next)) => {
                if i < next <= s.len() {
                    match spec_parse_args(s, next) {
                        Some((rest, end)) => Some((seq![tok] + rest, end)),
                        None => None,
                    }
                } else {
                    None
                }
            },
            None => None,
        }
    }
}

/// The parse of a method descriptor: everything before the first `(` is
/// ignored, then the argument tokens up to `)`, then the return-type token.
pub open spec fn spec_parse_descriptor(s: Seq<char>) -> Option<(Seq<Seq<char>>, Seq<char>)> {
    match spec_find_from(s, 0, '(') {
        Some(p) => match spec_parse_args(s, p + 1) {
            Some((args, after)) => match spec_read_token(s, after) {
                Some((ret, _)) => Some((args, ret)),
                None => None,
            },
            None => None,
        },
        None => None,
    }
}

/// The number of local-variable slots the argument list occupies: `J` and
/// `D` take two slots, everything else one.
pub open spec fn spec_arg_slots(args: Seq<Seq<char>>) -> int
    decreases args.len(),
{
    if args.len() == 0 {
        0
    } else {
        (if args[0] == seq!['J'] || args[0] == seq!['D'] {
            2int
        } else {
            1int
        }) + spec_arg_slots(args.skip(1))
    }
}

/// The concatenation of a sequence of tokens.
pub open spec fn concat_all(ts: Seq<Seq<char>>) -> Seq<char>
    decreases ts.len(),
{
    if ts.len() == 0 {
        Seq::empty()
    } else {
        ts[0] + concat_all(ts.skip(1))
    }
}

/// A found character really is the first occurrence at or after `i`.
pub proof fn lemma_find_from_first(s: Seq<char>, i: int, c: char)
    ensures
        spec_find_from(s, i, c) matches Some(p) ==> i <= p < s.len() && s[p] == c && (forall|j: int|
            i <= j < p ==> s[j] != c),
    decreases s.len() - i,
{
    if 0 <= i < s.len() && s[i] != c {
        lemma_find_from_first(s, i + 1, c);
    }
}

/// Bracket skipping moves forward and stays within the text.
pub proof fn lemma_skip_brackets_bounds(s: Seq<char>, i: int)
    requires
        0 <= i <= s.len(),
    ensures
        i <= spec_skip_brackets(s, i) <= s.len(),
    decreases s.len() - i,
{
    if i < s.len() && s[i] == '[' {
        lemma_skip_brackets_bounds(s, i + 1);
    }
}

/// Parsed argument tokens cover the text between the opening offset and the
/// closing parenthesis, exactly and in order.
pub proof fn lemma_parse_args_reconstruct(s: Seq<char>, i: int)
    ensures
        spec_parse_args(s, i) matches Some(p) ==> 0 <= i <= p.1 - 1 < s.len() && concat_all(p.0)
            == s.subrange(i, p.1 - 1) && s[p.1 - 1] == ')',
    decreases s.len() - i,
{
    if 0 <= i < s.len() {
        if s[i] == ')' {
            assert(concat_all(Seq::<Seq<char>>::empty()) =~= s.subrange(i, i));
        } else {
            match spec_read_token(s, i) {
                Some((tok, next)) => {
                    if i < next <= s.len() {
                        lemma_parse_args_reconstruct(s, next);
                        match spec_parse_args(s, next) {
                            Some((rest, end)) => {
                                assert((seq![tok] + rest).skip(1) =~= rest);
                                assert(concat_all(seq![tok] + rest) == tok + concat_all(rest));
                                assert(tok + s.subrange(next, end - 1) =~= s.subrange(i, end - 1));
                            },
                            None => {},
                        }
                    }
                },
                None => {},
            }
        }
    }
}

/// Reconstruction of a parsed descriptor: the signature text splits exactly
/// into everything before the first `(`, the argument tokens in order, the
/// `)`, and the return-type token.
pub proof fn lemma_descriptor_reconstruct(s: Seq<char>)
    ensures
        spec_parse_descriptor(s) matches Some(d) ==> (spec_find_from(s, 0, '(') matches Some(p)
            && 0 <= p < s.len() && s[p] == '(' && (forall|j: int| 0 <= j < p ==> s[j] != '(') && (
        spec_parse_args(s, p + 1) matches Some(pr) && pr.0 == d.0 && concat_all(d.0) == s.subrange(
            p + 1,
            pr.1 - 1,
        ) && s[pr.1 - 1] == ')' && d.1 == s.subrange(pr.1, pr.1 + d.1.len()))),
{
    match spec_find_from(s, 0, '(') {
        Some(p) => {
            lemma_find_from_first(s, 0, '(');
            lemma_parse_args_reconstruct(s, p + 1);
            match spec_parse_args(s, p + 1) {
                Some((args, after)) => {
                    lemma_skip_brackets_bounds(s, after);
                    let b = spec_skip_brackets(s, after);
                    if b < s.len() && s[b] == 'L' {
                        lemma_find_from_first(s, b, ';');
                    }
                    match spec_read_token(s, after) {
                        Some((ret, tok_end)) => {
                            assert(ret == s.subrange(after, tok_end));
                            assert(ret.len() == tok_end - after);
                        },
                        None => {},
                    }
                },
                None => {},
            }
        },
        None => {},
    }
}

/// Every argument occupies one or two slots.
pub proof fn lemma_arg_slots_bounds(args: Seq<Seq<char>>)
    ensures
        args.len() <= spec_arg_slots(args) <= 2 * args.len(),
    decreases args.len(),
{
    if args.len() > 0 {
        lemma_arg_slots_bounds(args.skip(1));
    }
}

/// A parsed method descriptor.
#[derive(Debug)]
pub struct MethodDescriptor {
    pub argument_types: Vec<String>,
    pub return_type: String,
}

impl MethodDescriptor {
    /// The views of the argument-type strings.
    pub open spec fn spec_args(&self) -> Seq<Seq<char>> {
        self.argument_types@.map_values(|t: String| t@)
    }

    fn read_token(desc: &str, offset: usize) -> (r: Result<(String, usize), ()>)
        requires
            offset <= desc@.len(),
        ensures
            r matches Ok((tok, end)) ==> spec_read_token(desc@, offset as int) == Some(
                (tok@, end as int),
            ) && offset < end <= desc@.len(),
            r is Err ==> spec_read_token(desc@, offset as int) is None,
    {
        let len = desc.unicode_len();
        let mut b: usize = offset;
        while b < len && desc.get_char(b) == '['
            invariant
                offset <= b <= len,
                len == desc@.len(),
                spec_skip_brackets(desc@, offset as int) == spec_skip_brackets(desc@, b as int),
            decreases len - b,
        {
            b = b + 1;
        }
        assert(spec_skip_brackets(desc@, b as int) == b);
        if b >= len {
            return Err(());
        }
        let base = desc.get_char(b);
        let end: usize = if base == 'L' {
            let mut e: usize = b;
            while e < len && desc.get_char(e) != ';'
                invariant
                    b <= e <= len,
                    len == desc@.len(),
                    spec_find_from(desc@, b as int, ';') == spec_find_from(desc@, e as int, ';'),
                decreases len - e,
            {
                e = e + 1;
            }
            if e >= len {
                return Err(());
            }
            e + 1
        } else if base == 'B' || base == 'S' || base == 'I' || base == 'J' || base == 'F' || base
            == 'D' || base == 'C' || base == 'Z' || base == 'V' {
            b + 1
        } else {
            return Err(());
        };
        let tok = desc.substring_char(offset, end).to_owned();
        Ok((tok, end))
    }

    /// Parses the method descriptor in `desc`, skipping everything before the
    /// first `(` (so a full `name(args)ret` signature is accepted). Fails
    /// exactly on inputs whose tail is not a well-formed descriptor.
    pub fn new(desc: &str) -> (r: Result<MethodDescriptor, ()>)
        ensures
            r matches Ok(d) ==> spec_parse_descriptor(desc@) == Some(
                (d.spec_args(), d.return_type@),
            ),
            r is Err <==> spec_parse_descriptor(desc@) is None,
    {
        let len = desc.unicode_len();
        let mut p: usize = 0;
        while p < len && desc.get_char(p) != '('
            invariant
                p <= len,
                len == desc@.len(),
                spec_find_from(desc@, 0, '(') == spec_find_from(desc@, p as int, '('),
            decreases len - p,
        {
            p = p + 1;
        }
        if p >= len {
            return Err(());
        }
        assert(spec_find_from(desc@, 0, '(') == Some(p as int));
        let mut argument_types: Vec<String> = Vec::new();
        let mut offset: usize = p + 1;
        loop
            invariant_except_break
                p < len,
                len == desc@.len(),
                spec_find_from(desc@, 0, '(') == Some(p as int),
                p < offset <= len,
                spec_parse_args(desc@, p + 1) == (match spec_parse_args(desc@, offset as int) {
                    Some((rest, end)) => Some::<(Seq<Seq<char>>, int)>(
                        (argument_types@.map_values(|t: String| t@) + rest, end),
                    ),
                    None => None::<(Seq<Seq<char>>, int)>,
                }),
            ensures
                offset <= len,
                spec_parse_args(desc@, p + 1) == Some::<(Seq<Seq<char>>, int)>(
                    (argument_types@.map_values(|t: String| t@), offset as int),
                ),
            decreases len - offset,
        {
            if offset >= len {
                return Err(());
            }
            if desc.get_char(offset) == ')' {
                proof {
                    assert(spec_parse_args(desc@, offset as int) == Some::<(Seq<Seq<char>>, int)>(
                        (Seq::empty(), offset + 1),
                    ));
                    assert(argument_types@.map_values(|t: String| t@) + Seq::<Seq<char>>::empty()
                        =~= argument_types@.map_values(|t: String| t@));
                }
                offset = offset + 1;
                break ;
            }
            match Self::read_token(desc, offset) {
                Ok((tok, next)) => {
                    let ghost prev_args = argument_types@;
                    argument_types.push(tok);
                    proof {
                        assert(argument_types@.map_values(|t: String| t@) =~= prev_args.map_values(
                            |t: String| t@,
                        ).push(tok@));
                        match spec_parse_args(desc@, next as int) {
                            Some((rest2, end2)) => {
                                assert(prev_args.map_values(|t: String| t@) + (seq![tok@] + rest2)
                                    =~= argument_types@.map_values(|t: String| t@) + rest2);
                            },
                            None => {},
                        }
                    }
                    offset = next;
                },
                Err(()) => {
                    return Err(());
                },
            }
        }
        match Self::read_token(desc, offset) {
            Ok((return_type, _)) => {
                let d = MethodDescriptor { argument_types, return_type };
                Ok(d)
            },
            Err(()) => Err(()),
        }
    }

    /// The number of local-variable slots this descriptor's arguments occupy.
    pub fn arg_slots(&self) -> (r: Result<usize, ()>)
        ensures
            r matches Ok(n) ==> n == spec_arg_slots(self.spec_args()),
            r is Err ==> spec_arg_slots(self.spec_args()) > usize::MAX - 2,
    {
        let mut slots: usize = 0;
        let mut i: usize = 0;
        let n = self.argument_types.len();
        proof {
            assert(self.spec_args().skip(0) =~= self.spec_args());
        }
        while i < n
            invariant
                i <= n,
                n == self.argument_types@.len(),
                spec_arg_slots(self.spec_args()) == slots + spec_arg_slots(
                    self.spec_args().skip(i as int),
                ),
            decreases n - i,
        {
            proof {
                assert(self.spec_args().skip(i as int)[0] == self.spec_args()[i as int]);
                assert(self.spec_args().skip(i as int).skip(1) =~= self.spec_args().skip(i + 1));
                assert(self.spec_args()[i as int] == self.argument_types@[i as int]@);
            }
            let t: &String = &self.argument_types[i];
            let wide = crate::strutil::str_eq(t.as_str(), "J") || crate::strutil::str_eq(
                t.as_str(),
                "D",
            );
            proof {
                reveal_strlit("J");
                reveal_strlit("D");
                assert("J"@ =~= seq!['J']);
                assert("D"@ =~= seq!['D']);
                let ti = self.spec_args()[i as int];
                assert(wide == (ti == seq!['J'] || ti == seq!['D']));
            }
            if slots >= usize::MAX - 1 {
                proof {
                    lemma_arg_slots_bounds(self.spec_args().skip(i as int));
                }
                return Err(());
            }
            slots = slots + (if wide {
                2
            } else {
                1
            });
            i = i + 1;
        }
        proof {
            assert(self.spec_args().skip(n as int) =~= Seq::<Seq<char>>::empty());
        }
        Ok(slots)
    }
}

} // verus!
