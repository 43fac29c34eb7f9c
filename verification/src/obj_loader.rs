//! Reading Wavefront OBJ text: positions (`v`), texture coordinates (`vt`),
//! normals (`vn`) and triangular faces (`f`). The reader keeps each
//! attribute line's words as they are (turning them into numbers is left to
//! the caller) and builds one vertex per distinct face corner, in the order
//! corners first appear.

use vstd::prelude::*;
use crate::text::{ws_tokens, pieces, pieces_from, parsed_usize, split_whitespace, split_on, parse_usize, lemma_pieces_nonempty};

verus! {

/// What a face corner refers to: a position and, optionally, a texture
/// coordinate and a normal, all counted from zero. Two corners with the same
/// references share a vertex.
#[derive(PartialEq, Eq, Structural, Debug, Clone, Copy)]
pub struct VertexData {
    pub pos_idx: usize,
    pub tex_idx: Option<usize>,
    pub norm_idx: Option<usize>,
}

/// A vertex built from a face corner: the position line it takes its
/// position and color from, and the texture coordinate and normal lines it
/// takes those from, if there are such lines.
#[derive(PartialEq, Eq, Structural, Debug, Clone, Copy)]
pub struct ObjVertex {
    pub position: usize,
    pub texcoord: Option<usize>,
    pub normal: Option<usize>,
}

/// The result of reading: the words of every `v`, `vt` and `vn` line (the
/// keyword included), in order, and the vertices.
pub struct ObjData {
    pub positions: Vec<Vec<String>>,
    pub texcoords: Vec<Vec<String>>,
    pub normals: Vec<Vec<String>>,
    pub vertices: Vec<ObjVertex>,
}

/// The reader's state: the attribute lines so far, the references of the
/// corners seen so far and the vertices built from them.
pub struct ObjModel {
    pub positions: Seq<Seq<Seq<char>>>,
    pub texcoords: Seq<Seq<Seq<char>>>,
    pub normals: Seq<Seq<Seq<char>>>,
    pub keys: Seq<VertexData>,
    pub vertices: Seq<ObjVertex>,
}

/// A list of lines of words, as characters.
pub open spec fn words_view(v: Seq<Vec<String>>) -> Seq<Seq<Seq<char>>> {
    v.map_values(|l: Vec<String>| l@.map_values(|t: String| t@))
}

/// The lines of a file, as characters.
pub open spec fn lines_view(v: Seq<String>) -> Seq<Seq<char>> {
    v.map_values(|l: String| l@)
}

/// The state before any line.
pub open spec fn empty_model() -> ObjModel {
    ObjModel { positions: seq![], texcoords: seq![], normals: seq![], keys: seq![], vertices: seq![] }
}

/// The number written before the first `/` of a corner.
pub open spec fn corner_position_number(tok: Seq<char>) -> Option<usize> {
    parsed_usize(pieces(tok, '/')[0])
}

/// The number written between the first and second `/` of a corner, if any.
pub open spec fn corner_texcoord_number(tok: Seq<char>) -> Option<usize> {
    if pieces(tok, '/').len() > 1 { parsed_usize(pieces(tok, '/')[1]) } else { None }
}

/// The number written after the second `/` of a corner, if any.
pub open spec fn corner_normal_number(tok: Seq<char>) -> Option<usize> {
    if pieces(tok, '/').len() > 2 { parsed_usize(pieces(tok, '/')[2]) } else { None }
}

/// One less than a number, if there is a number.
pub open spec fn minus_one(n: Option<usize>) -> Option<usize> {
    match n {
        Some(k) => Some((k - 1) as usize),
        None => None,
    }
}

/// The references of a corner (its numbers count from one).
pub open spec fn corner_key(tok: Seq<char>) -> VertexData {
    VertexData {
        pos_idx: (corner_position_number(tok)->0 - 1) as usize,
        tex_idx: minus_one(corner_texcoord_number(tok)),
        norm_idx: minus_one(corner_normal_number(tok)),
    }
}

/// The line that a number picks out of a list of lines, taking the number
/// itself as the index, if there is such a line.
pub open spec fn line_at(n: Option<usize>, count: nat) -> Option<usize> {
    match n {
        Some(k) => if k < count { Some(k) } else { None },
        None => None,
    }
}

/// A corner the reader can take: its position number is at least one and
/// names a position line read before, and its other numbers are not zero.
pub open spec fn corner_ok(st: ObjModel, tok: Seq<char>) -> bool {
    &&& corner_position_number(tok) matches Some(p) && 1 <= p && p - 1 < st.positions.len()
    &&& corner_texcoord_number(tok) != Some(0usize)
    &&& corner_normal_number(tok) != Some(0usize)
}

/// The state after a face corner: a new vertex unless a corner with the same
/// references was seen before.
pub open spec fn add_corner(st: ObjModel, tok: Seq<char>) -> ObjModel {
    let key = corner_key(tok);
    if st.keys.contains(key) {
        st
    } else {
        ObjModel {
            keys: st.keys.push(key),
            vertices: st.vertices.push(ObjVertex {
                position: key.pos_idx,
                texcoord: line_at(corner_texcoord_number(tok), st.texcoords.len()),
                normal: line_at(corner_normal_number(tok), st.normals.len()),
            }),
            ..st
        }
    }
}

/// The reader's state is consistent: one vertex per corner key, at the
/// key's position, and no key twice.
pub open spec fn model_consistent(st: ObjModel) -> bool {
    &&& st.keys.len() == st.vertices.len()
    &&& forall|v: int| 0 <= v < st.keys.len() ==> (#[trigger] st.vertices[v]).position == st.keys[v].pos_idx
    &&& st.keys.no_duplicates()
}

/// Taking a face corner keeps the state consistent and the vertices already
/// made; afterwards the corner has a vertex whose key records the corner's
/// own position, texture-coordinate and normal numbers (each less one). So
/// two corners share a vertex only if all three numbers agree: a corner
/// with another normal gets a vertex of its own.
pub proof fn lemma_corner_gets_own_vertex(st: ObjModel, tok: Seq<char>)
    requires
        model_consistent(st),
        corner_position_number(tok) is Some,
    ensures
        model_consistent(add_corner(st, tok)),
        add_corner(st, tok).vertices.take(st.vertices.len() as int) == st.vertices,
        add_corner(st, tok).keys.take(st.keys.len() as int) == st.keys,
        exists|v: int| 0 <= v < add_corner(st, tok).keys.len() && {
            let k = #[trigger] add_corner(st, tok).keys[v];
            &&& k.pos_idx == (corner_position_number(tok)->0 - 1) as usize
            &&& k.tex_idx == minus_one(corner_texcoord_number(tok))
            &&& k.norm_idx == minus_one(corner_normal_number(tok))
            &&& add_corner(st, tok).vertices[v].position == k.pos_idx
        },
{
    let key = corner_key(tok);
    let st2 = add_corner(st, tok);
    if st.keys.contains(key) {
        let v = choose|v: int| 0 <= v < st.keys.len() && st.keys[v] == key;
        assert(st2.keys[v] == key);
        assert(st.vertices.take(st.vertices.len() as int) =~= st.vertices);
        assert(st.keys.take(st.keys.len() as int) =~= st.keys);
    } else {
        let n = st.keys.len() as int;
        assert(st2.keys[n] == key);
        assert(st2.vertices.take(n) =~= st.vertices);
        assert(st2.keys.take(n) =~= st.keys);
        assert forall|v: int| 0 <= v < st2.keys.len() implies (#[trigger] st2.vertices[v]).position == st2.keys[v].pos_idx by {
            if v < n {
                assert(st2.vertices[v] == st.vertices[v] && st2.keys[v] == st.keys[v]);
            }
        }
        assert(st2.keys.no_duplicates()) by {
            assert forall|a: int, b: int| 0 <= a < st2.keys.len() && 0 <= b < st2.keys.len() && a != b
                implies st2.keys[a] != st2.keys[b] by {
                if a < n && b < n {
                    assert(st2.keys[a] == st.keys[a] && st2.keys[b] == st.keys[b]);
                } else if a < n {
                    assert(st2.keys[a] == st.keys[a]);
                    assert(st.keys.contains(st.keys[a]));
                } else if b < n {
                    assert(st2.keys[b] == st.keys[b]);
                    assert(st.keys.contains(st.keys[b]));
                }
            }
        }
    }
}

proof fn lemma_pieces_plain(s: Seq<char>, sep: char, cur: Seq<char>, acc: Seq<Seq<char>>)
    requires
        !s.contains(sep),
    ensures
        pieces_from(s, sep, cur, acc) == acc.push(cur + s),
    decreases s.len(),
{
    if s.len() == 0 {
        assert(cur + s =~= cur);
    } else {
        assert(s[0] != sep) by { assert(s.contains(s[0])) by { assert(s[0] == s[0]); } }
        assert forall|x: char| s.drop_first().contains(x) implies s.contains(x) by {
            let i = choose|i: int| 0 <= i < s.drop_first().len() && s.drop_first()[i] == x;
            assert(s[i + 1] == x);
        }
        lemma_pieces_plain(s.drop_first(), sep, cur.push(s[0]), acc);
        assert(cur.push(s[0]) + s.drop_first() =~= cur + s);
    }
}

proof fn lemma_pieces_split(a: Seq<char>, rest: Seq<char>, sep: char, cur: Seq<char>, acc: Seq<Seq<char>>)
    requires
        !a.contains(sep),
    ensures
        pieces_from(a + seq![sep] + rest, sep, cur, acc) == pieces_from(rest, sep, seq![], acc.push(cur + a)),
    decreases a.len(),
{
    let s = a + seq![sep] + rest;
    if a.len() == 0 {
        assert(s[0] == sep);
        assert(s.drop_first() =~= rest);
        assert(cur + a =~= cur);
    } else {
        assert(a[0] != sep) by { assert(a.contains(a[0])) by { assert(a[0] == a[0]); } }
        assert forall|x: char| a.drop_first().contains(x) implies a.contains(x) by {
            let i = choose|i: int| 0 <= i < a.drop_first().len() && a.drop_first()[i] == x;
            assert(a[i + 1] == x);
        }
        assert(s[0] == a[0]);
        assert(s.drop_first() =~= a.drop_first() + seq![sep] + rest);
        lemma_pieces_split(a.drop_first(), rest, sep, cur.push(a[0]), acc);
        assert(cur.push(a[0]) + a.drop_first() =~= cur + a);
    }
}

/// The numbers of a corner written `p/t/n` are the numbers written in its
/// three parts: position, texture coordinate and normal, in that order.
pub proof fn lemma_corner_numbers(p: Seq<char>, t: Seq<char>, n: Seq<char>)
    requires
        !p.contains('/'),
        !t.contains('/'),
        !n.contains('/'),
    ensures
        corner_position_number(p + seq!['/'] + t + seq!['/'] + n) == parsed_usize(p),
        corner_texcoord_number(p + seq!['/'] + t + seq!['/'] + n) == parsed_usize(t),
        corner_normal_number(p + seq!['/'] + t + seq!['/'] + n) == parsed_usize(n),
{
    let tok = p + seq!['/'] + t + seq!['/'] + n;
    let e: Seq<char> = seq![];
    let none: Seq<Seq<char>> = seq![];
    assert(tok =~= p + seq!['/'] + (t + seq!['/'] + n));
    lemma_pieces_split(p, t + seq!['/'] + n, '/', e, none);
    lemma_pieces_split(t, n, '/', e, none.push(e + p));
    lemma_pieces_plain(n, '/', e, none.push(e + p).push(e + t));
    let ps = pieces(tok, '/');
    assert(ps =~= seq![p, t, n]) by {
        assert(e + p =~= p);
        assert(e + t =~= t);
        assert(e + n =~= n);
    }
}

/// The state after a line.
pub open spec fn add_line(st: ObjModel, line: Seq<char>) -> ObjModel {
    let parts = ws_tokens(line);
    if parts.len() == 0 {
        st
    } else if parts[0] == "v"@ {
        ObjModel { positions: st.positions.push(parts), ..st }
    } else if parts[0] == "vt"@ {
        ObjModel { texcoords: st.texcoords.push(parts), ..st }
    } else if parts[0] == "vn"@ {
        ObjModel { normals: st.normals.push(parts), ..st }
    } else if parts[0] == "f"@ {
        add_corner(add_corner(add_corner(st, parts[1]), parts[2]), parts[3])
    } else {
        st
    }
}

/// The state after all lines.
pub open spec fn read_lines(lines: Seq<Seq<char>>) -> ObjModel
    decreases lines.len(),
{
    if lines.len() == 0 {
        empty_model()
    } else {
        add_line(read_lines(lines.drop_last()), lines.last())
    }
}

/// A line the reader can take in a given state: a face line has at least
/// three corners, and they can be taken.
pub open spec fn line_ok(st: ObjModel, line: Seq<char>) -> bool {
    let parts = ws_tokens(line);
    parts.len() > 0 && parts[0] == "f"@ ==> {
        &&& parts.len() >= 4
        &&& corner_ok(st, parts[1])
        &&& corner_ok(st, parts[2])
        &&& corner_ok(st, parts[3])
    }
}

/// Every line can be taken in the state the lines before it leave.
pub open spec fn lines_ok(lines: Seq<Seq<char>>) -> bool
    decreases lines.len(),
{
    if lines.len() == 0 {
        true
    } else {
        lines_ok(lines.drop_last()) && line_ok(read_lines(lines.drop_last()), lines.last())
    }
}

/// Reading lines that can be read leaves the state consistent: every corner
/// key has one vertex, at its position, and no key is there twice.
pub proof fn lemma_read_lines_consistent(lines: Seq<Seq<char>>)
    requires
        lines_ok(lines),
    ensures
        model_consistent(read_lines(lines)),
    decreases lines.len(),
{
    if lines.len() == 0 {
    } else {
        let before = read_lines(lines.drop_last());
        lemma_read_lines_consistent(lines.drop_last());
        let line = lines.last();
        let parts = ws_tokens(line);
        if parts.len() > 0 && parts[0] == "f"@ {
            lemma_corner_gets_own_vertex(before, parts[1]);
            let s1 = add_corner(before, parts[1]);
            assert(s1.positions == before.positions);
            lemma_corner_gets_own_vertex(s1, parts[2]);
            let s2 = add_corner(s1, parts[2]);
            assert(s2.positions == before.positions);
            lemma_corner_gets_own_vertex(s2, parts[3]);
            lemma_keywords_differ();
        }
    }
}

/// Whether a word is the given keyword.
fn is_word(t: &String, w: &str) -> (r: bool)
    ensures
        r == (t@ == w@),
{
    let owned: String = w.to_owned();
    *t == owned
}

/// Whether two corners have the same references.
fn same_key(a: &VertexData, b: &VertexData) -> (r: bool)
    ensures
        r == (*a == *b),
{
    let t = match (a.tex_idx, b.tex_idx) {
        (Some(x), Some(y)) => x == y,
        (None, None) => true,
        _ => false,
    };
    let n = match (a.norm_idx, b.norm_idx) {
        (Some(x), Some(y)) => x == y,
        (None, None) => true,
        _ => false,
    };
    a.pos_idx == b.pos_idx && t && n
}

/// Whether `keys` holds `key`.
fn has_key(keys: &Vec<VertexData>, key: &VertexData) -> (r: bool)
    ensures
        r == keys@.contains(*key),
{
    let n = keys.len();
    let mut i: usize = 0;
    while i < n
        invariant
            n == keys@.len(),
            0 <= i <= n,
            forall|j: int| 0 <= j < i ==> keys@[j] != *key,
        decreases n - i,
    {
        if same_key(&keys[i], key) {
            assert(keys@[i as int] == *key);
            return true;
        }
        i = i + 1;
    }
    false
}

/// The reader's working state.
struct Reader {
    positions: Vec<Vec<String>>,
    texcoords: Vec<Vec<String>>,
    normals: Vec<Vec<String>>,
    keys: Vec<VertexData>,
    vertices: Vec<ObjVertex>,
}

impl View for Reader {
    type V = ObjModel;

    closed spec fn view(&self) -> ObjModel {
        ObjModel {
            positions: words_view(self.positions@),
            texcoords: words_view(self.texcoords@),
            normals: words_view(self.normals@),
            keys: self.keys@,
            vertices: self.vertices@,
        }
    }
}

/// The number in a piece, if the piece exists and holds one.
fn number_in(ps: &Vec<String>, k: usize) -> (r: Option<usize>)
    ensures
        r == if k < ps@.len() { parsed_usize(ps@[k as int]@) } else { None::<usize> },
{
    if k < ps.len() {
        parse_usize(ps[k].as_str())
    } else {
        None
    }
}

impl Reader {
    /// Takes one face corner.
    fn add_corner(&mut self, tok: &String)
        requires
            corner_ok(old(self)@, tok@),
        ensures
            final(self)@ == add_corner(old(self)@, tok@),
    {
        let ps = split_on(tok.as_str(), '/');
        proof {
            assert(ps@.map_values(|t: String| t@) == pieces(tok@, '/'));
            assert(pieces(tok@, '/').len() == ps@.len());
            assert(forall|k: int| 0 <= k < ps@.len() ==> #[trigger] ps@[k]@ == pieces(tok@, '/')[k]);
            lemma_pieces_nonempty(tok@, '/');
        }
        let p: usize = match number_in(&ps, 0) {
            Some(v) => v,
            None => 0,
        };
        let t = number_in(&ps, 1);
        let n = number_in(&ps, 2);
        let key = VertexData {
            pos_idx: p - 1,
            tex_idx: match t { Some(x) => Some(x - 1), None => None },
            norm_idx: match n { Some(x) => Some(x - 1), None => None },
        };
        assert(key == corner_key(tok@));
        if !has_key(&self.keys, &key) {
            let texcoord: Option<usize> = match t {
                Some(x) => if x < self.texcoords.len() { Some(x) } else { None },
                None => None,
            };
            let normal: Option<usize> = match n {
                Some(x) => if x < self.normals.len() { Some(x) } else { None },
                None => None,
            };
            self.keys.push(key);
            self.vertices.push(ObjVertex { position: key.pos_idx, texcoord, normal });
        }
    }

    /// Takes one line.
    fn add_line(&mut self, line: &String)
        requires
            line_ok(old(self)@, line@),
        ensures
            final(self)@ == add_line(old(self)@, line@),
    {
        let parts = split_whitespace(line.as_str());
        let ghost pv = parts@.map_values(|t: String| t@);
        assert(pv == ws_tokens(line@));
        assert(forall|k: int| 0 <= k < parts@.len() ==> #[trigger] parts@[k]@ == pv[k]);
        if parts.len() == 0 {
            return;
        }
        if is_word(&parts[0], "v") {
            let ghost before = words_view(self.positions@);
            self.positions.push(parts);
            assert(words_view(self.positions@) =~= before.push(pv));
        } else if is_word(&parts[0], "vt") {
            let ghost before = words_view(self.texcoords@);
            self.texcoords.push(parts);
            assert(words_view(self.texcoords@) =~= before.push(pv));
        } else if is_word(&parts[0], "vn") {
            let ghost before = words_view(self.normals@);
            self.normals.push(parts);
            assert(words_view(self.normals@) =~= before.push(pv));
        } else if is_word(&parts[0], "f") {
            self.add_corner(&parts[1]);
            self.add_corner(&parts[2]);
            self.add_corner(&parts[3]);
        }
    }
}


/// Reads the lines of an OBJ file. Every face line must have at least three
/// corners, each with a position number that names a position line read
/// before it, and no zero texture coordinate or normal number.
pub fn parse_obj_lines(lines: &Vec<String>) -> (r: ObjData)
    requires
        lines_ok(lines_view(lines@)),
    ensures
        words_view(r.positions@) == read_lines(lines_view(lines@)).positions,
        words_view(r.texcoords@) == read_lines(lines_view(lines@)).texcoords,
        words_view(r.normals@) == read_lines(lines_view(lines@)).normals,
        r.vertices@ == read_lines(lines_view(lines@)).vertices,
{
    let ghost lv = lines_view(lines@);
    let mut reader = Reader {
        positions: Vec::new(),
        texcoords: Vec::new(),
        normals: Vec::new(),
        keys: Vec::new(),
        vertices: Vec::new(),
    };
    assert(reader@ == empty_model()) by {
        assert(words_view(reader.positions@) =~= seq![]);
        assert(words_view(reader.texcoords@) =~= seq![]);
        assert(words_view(reader.normals@) =~= seq![]);
        assert(reader.keys@ =~= seq![]);
        assert(reader.vertices@ =~= seq![]);
    }
    let n = lines.len();
    let mut i: usize = 0;
    assert(lv.take(0) =~= seq![]);
    while i < n
        invariant
            n == lines@.len(),
            lv == lines_view(lines@),
            lines_ok(lv),
            0 <= i <= n,
            reader@ == read_lines(lv.take(i as int)),
        decreases n - i,
    {
        proof {
            lemma_lines_ok_prefix(lv, i as int + 1);
            let t = lv.take(i + 1);
            assert(t.drop_last() =~= lv.take(i as int));
            assert(t.last() == lines@[i as int]@);
        }
        reader.add_line(&lines[i]);
        i = i + 1;
    }
    assert(lv.take(n as int) =~= lv);
    ObjData {
        positions: reader.positions,
        texcoords: reader.texcoords,
        normals: reader.normals,
        vertices: reader.vertices,
    }
}

/// Whether a corner can be taken when `count` position lines have been read.
fn corner_readable(tok: &String, count: usize) -> (r: bool)
    ensures
        forall|st: ObjModel| st.positions.len() == count ==> (r == corner_ok(st, tok@)),
{
    let ps = split_on(tok.as_str(), '/');
    proof {
        assert(ps@.map_values(|t: String| t@) == pieces(tok@, '/'));
        assert(pieces(tok@, '/').len() == ps@.len());
        assert(forall|k: int| 0 <= k < ps@.len() ==> #[trigger] ps@[k]@ == pieces(tok@, '/')[k]);
        lemma_pieces_nonempty(tok@, '/');
    }
    let p = number_in(&ps, 0);
    let t = number_in(&ps, 1);
    let n = number_in(&ps, 2);
    let pos_ok = match p {
        Some(v) => 1 <= v && v - 1 < count,
        None => false,
    };
    let t_ok = match t {
        Some(v) => v != 0,
        None => true,
    };
    let n_ok = match n {
        Some(v) => v != 0,
        None => true,
    };
    pos_ok && t_ok && n_ok
}

/// The four keywords are different words.
proof fn lemma_keywords_differ()
    ensures
        "f"@ != "v"@,
        "f"@ != "vt"@,
        "f"@ != "vn"@,
        "v"@ != "vt"@,
        "v"@ != "vn"@,
        "vt"@ != "vn"@,
{
    reveal_strlit("f");
    reveal_strlit("v");
    reveal_strlit("vt");
    reveal_strlit("vn");
    assert("f"@[0] != "v"@[0]);
    assert("f"@.len() != "vt"@.len());
    assert("f"@.len() != "vn"@.len());
    assert("v"@.len() != "vt"@.len());
    assert("v"@.len() != "vn"@.len());
    assert("vt"@[1] != "vn"@[1]);
}

/// Taking face corners leaves the position lines as they are.
proof fn lemma_corner_keeps_positions(st: ObjModel, tok: Seq<char>)
    ensures
        add_corner(st, tok).positions == st.positions,
{
}

/// Whether the reader can take all the lines: the condition under which
/// `parse_obj_lines` may be called.
pub fn obj_lines_readable(lines: &Vec<String>) -> (r: bool)
    ensures
        r == lines_ok(lines_view(lines@)),
{
    let ghost lv = lines_view(lines@);
    let n = lines.len();
    let mut count: usize = 0;
    let mut i: usize = 0;
    assert(lv.take(0) =~= seq![]);
    while i < n
        invariant
            n == lines@.len(),
            lv == lines_view(lines@),
            0 <= i <= n,
            count as nat == read_lines(lv.take(i as int)).positions.len(),
            count <= i,
            lines_ok(lv.take(i as int)),
        decreases n - i,
    {
        let ghost st = read_lines(lv.take(i as int));
        let ghost t = lv.take(i + 1);
        proof {
            lemma_keywords_differ();
            assert(t.drop_last() =~= lv.take(i as int));
            assert(t.last() == lines@[i as int]@);
        }
        let parts = split_whitespace(lines[i].as_str());
        let ghost pv = parts@.map_values(|w: String| w@);
        assert(pv == ws_tokens(lines@[i as int]@));
        assert(forall|k: int| 0 <= k < parts@.len() ==> #[trigger] parts@[k]@ == pv[k]);
        let ghost nst = add_line(st, lines@[i as int]@);
        assert(read_lines(t) == nst);
        if parts.len() == 0 {
            assert(nst == st);
        } else if is_word(&parts[0], "f") {
            assert(pv[0] == "f"@);
            assert(pv[0] != "v"@ && pv[0] != "vt"@ && pv[0] != "vn"@);
            let ok = parts.len() >= 4 && corner_readable(&parts[1], count)
                && corner_readable(&parts[2], count) && corner_readable(&parts[3], count);
            if !ok {
                proof { lemma_not_ok_extends(lv, i as int); }
                return false;
            }
            proof {
                lemma_corner_keeps_positions(st, pv[1]);
                lemma_corner_keeps_positions(add_corner(st, pv[1]), pv[2]);
                lemma_corner_keeps_positions(add_corner(add_corner(st, pv[1]), pv[2]), pv[3]);
                assert(nst.positions == st.positions);
            }
        } else if is_word(&parts[0], "v") {
            assert(nst.positions == st.positions.push(pv));
            count = count + 1;
        } else {
            assert(pv[0] != "v"@ && pv[0] != "f"@);
            assert(nst.positions == st.positions);
        }
        i = i + 1;
    }
    assert(lv.take(n as int) =~= lv);
    true
}

/// A line that cannot be taken makes every longer list of lines unreadable.
proof fn lemma_not_ok_extends(lines: Seq<Seq<char>>, i: int)
    requires
        0 <= i < lines.len(),
        !line_ok(read_lines(lines.take(i)), lines[i]),
    ensures
        !lines_ok(lines),
{
    lemma_not_ok_prefix(lines, i, lines.len() as int);
    assert(lines.take(lines.len() as int) =~= lines);
}

proof fn lemma_not_ok_prefix(lines: Seq<Seq<char>>, i: int, k: int)
    requires
        0 <= i < k <= lines.len(),
        !line_ok(read_lines(lines.take(i)), lines[i]),
    ensures
        !lines_ok(lines.take(k)),
    decreases k - i,
{
    let t = lines.take(k);
    assert(t.drop_last() =~= lines.take(k - 1));
    if k == i + 1 {
        assert(t.last() == lines[i]);
    } else {
        lemma_not_ok_prefix(lines, i, k - 1);
    }
    if k == lines.len() {
        assert(lines.take(k) =~= lines);
    }
}

/// Every prefix of readable lines is readable.
proof fn lemma_lines_ok_prefix(lines: Seq<Seq<char>>, k: int)
    requires
        lines_ok(lines),
        0 <= k <= lines.len(),
    ensures
        lines_ok(lines.take(k)),
    decreases lines.len() - k,
{
    if k < lines.len() {
        lemma_lines_ok_prefix(lines, k + 1);
        let t = lines.take(k + 1);
        assert(t.drop_last() =~= lines.take(k));
    } else {
        assert(lines.take(k) =~= lines);
    }
}

} // verus!
