use vstd::prelude::*;
use vstd::string::*;

verus! {

/// The four fields of a negotiation frame, in wire order.
pub type Fields = (Seq<char>, Seq<char>, Seq<char>, Seq<char>);

/// `t` holds no space character.
pub open spec fn no_space(t: Seq<char>) -> bool {
    forall|i: int| 0 <= i < t.len() ==> t[i] != ' '
}

/// `head`, one space, then `tail`.
pub open spec fn joined(head: Seq<char>, tail: Seq<char>) -> Seq<char> {
    head + seq![' '] + tail
}

/// `s` reads `VERB SOURCE TARGET PAYLOAD`: the first three fields hold no
/// space, the payload (which may hold spaces) is not empty.
pub open spec fn splits_into(s: Seq<char>, f: Fields) -> bool {
    &&& no_space(f.0)
    &&& no_space(f.1)
    &&& no_space(f.2)
    &&& f.3.len() > 0
    &&& s == joined(f.0, joined(f.1, joined(f.2, f.3)))
}

/// `s` has four fields.
pub open spec fn is_well_formed(s: Seq<char>) -> bool {
    exists|f: Fields| splits_into(s, f)
}

/// The fields of a well-formed frame; `None` for a malformed one.
pub open spec fn frame_fields(s: Seq<char>) -> Option<Fields> {
    if is_well_formed(s) {
        Some(choose|f: Fields| splits_into(s, f))
    } else {
        None
    }
}

/// A parsed negotiation frame.
pub struct Frame {
    pub verb: String,
    pub source: String,
    pub target: String,
    pub payload: String,
}

impl Frame {
    pub open spec fn fields(&self) -> Fields {
        (self.verb@, self.source@, self.target@, self.payload@)
    }
}

/// Splitting at the first space is unambiguous.
pub proof fn lemma_joined_unique(h1: Seq<char>, t1: Seq<char>, h2: Seq<char>, t2: Seq<char>)
    requires
        no_space(h1),
        no_space(h2),
        joined(h1, t1) == joined(h2, t2),
    ensures
        h1 == h2,
        t1 == t2,
{
    let s = joined(h1, t1);
    if h1.len() < h2.len() {
        assert(s[h1.len() as int] == ' ');
        assert(joined(h2, t2)[h1.len() as int] == h2[h1.len() as int]);
    } else if h2.len() < h1.len() {
        assert(joined(h2, t2)[h2.len() as int] == ' ');
        assert(s[h2.len() as int] == h1[h2.len() as int]);
    }
    assert(h1 =~= s.subrange(0, h1.len() as int));
    assert(h2 =~= joined(h2, t2).subrange(0, h2.len() as int));
    assert(t1 =~= s.subrange(h1.len() as int + 1, s.len() as int));
    assert(t2 =~= joined(h2, t2).subrange(h2.len() as int + 1, s.len() as int));
}

/// A frame splits into its fields in exactly one way.
pub proof fn lemma_split_unique(s: Seq<char>, f: Fields, g: Fields)
    requires
        splits_into(s, f),
        splits_into(s, g),
    ensures
        f == g,
{
    lemma_joined_unique(f.0, joined(f.1, joined(f.2, f.3)), g.0, joined(g.1, joined(g.2, g.3)));
    lemma_joined_unique(f.1, joined(f.2, f.3), g.1, joined(g.2, g.3));
    lemma_joined_unique(f.2, f.3, g.2, g.3);
}

/// What `frame_fields` gives is the one split of the frame.
pub proof fn lemma_fields_of_split(s: Seq<char>, f: Fields)
    requires
        splits_into(s, f),
    ensures
        frame_fields(s) == Some(f),
{
    let g = choose|g: Fields| splits_into(s, g);
    lemma_split_unique(s, f, g);
}

proof fn lemma_joined_has_space(head: Seq<char>, tail: Seq<char>)
    ensures
        !no_space(joined(head, tail)),
{
    assert(joined(head, tail)[head.len() as int] == ' ');
}

/// Splits `text` at its first space.
fn split_at_space<'a>(text: &'a str) -> (r: Option<(&'a str, &'a str)>)
    ensures
        match r {
            Some((head, tail)) => text@ == joined(head@, tail@) && no_space(head@),
            None => no_space(text@),
        },
{
    let len = text.unicode_len();
    let mut k: usize = 0;
    while k < len
        invariant
            k <= len,
            len == text@.len(),
            forall|i: int| 0 <= i < k ==> text@[i] != ' ',
        decreases len - k,
    {
        if text.get_char(k) == ' ' {
            let head = text.substring_char(0, k);
            let tail = text.substring_char(k + 1, len);
            assert(text@ =~= joined(head@, tail@));
            return Some((head, tail));
        }
        k = k + 1;
    }
    None
}

/// Parses `VERB SOURCE TARGET PAYLOAD`; a frame with fewer than four fields
/// gives `None`.
pub fn parse_frame(text: &str) -> (r: Option<Frame>)
    ensures
        match r {
            Some(f) => frame_fields(text@) == Some(f.fields()),
            None => frame_fields(text@) is None,
        },
{
    let ghost s = text@;
    let (verb, rest) = match split_at_space(text) {
        Some(p) => p,
        None => {
            proof {
                if is_well_formed(s) {
                    let f = choose|f: Fields| splits_into(s, f);
                    lemma_joined_has_space(f.0, joined(f.1, joined(f.2, f.3)));
                }
            }
            return None;
        },
    };
    let (source, rest2) = match split_at_space(rest) {
        Some(p) => p,
        None => {
            proof {
                if is_well_formed(s) {
                    let f = choose|f: Fields| splits_into(s, f);
                    lemma_joined_unique(f.0, joined(f.1, joined(f.2, f.3)), verb@, rest@);
                    lemma_joined_has_space(f.1, joined(f.2, f.3));
                }
            }
            return None;
        },
    };
    let (target, payload) = match split_at_space(rest2) {
        Some(p) => p,
        None => {
            proof {
                if is_well_formed(s) {
                    let f = choose|f: Fields| splits_into(s, f);
                    lemma_joined_unique(f.0, joined(f.1, joined(f.2, f.3)), verb@, rest@);
                    lemma_joined_unique(f.1, joined(f.2, f.3), source@, rest2@);
                    lemma_joined_has_space(f.2, f.3);
                }
            }
            return None;
        },
    };
    if payload.is_empty() {
        proof {
            if is_well_formed(s) {
                let f = choose|f: Fields| splits_into(s, f);
                lemma_joined_unique(f.0, joined(f.1, joined(f.2, f.3)), verb@, rest@);
                lemma_joined_unique(f.1, joined(f.2, f.3), source@, rest2@);
                lemma_joined_unique(f.2, f.3, target@, payload@);
            }
        }
        return None;
    }
    let frame = Frame {
        verb: verb.to_owned(),
        source: source.to_owned(),
        target: target.to_owned(),
        payload: payload.to_owned(),
    };
    proof {
        lemma_fields_of_split(s, frame.fields());
    }
    Some(frame)
}

} // verus!
