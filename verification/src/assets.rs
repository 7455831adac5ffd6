//! Cooked asset formats and the asset rules that produce them.
//!
//! A cooked texture (`RTEX`) is the magic `b"RTEX"`, the format version, the
//! width and the height (each a little-endian `u32`), then RGBA8 pixels. A
//! cooked mesh (`RMSH`) is `b"RMSH"`, the version, the vertex count and the
//! index count (each a little-endian `u32`), then the vertex bytes and the
//! index bytes.
use vstd::prelude::*;
use vstd::string::StringExecFns;

verus! {

/// The format version written into every cooked file.
pub const COOKED_VERSION: u32 = 1u32;

/// The four bytes of `x`, least significant first.
pub open spec fn le32(x: u32) -> Seq<u8> {
    seq![
        (x % 256) as u8,
        ((x / 256) % 256) as u8,
        ((x / 65536) % 256) as u8,
        ((x / 16777216) % 256) as u8,
    ]
}

/// The number that four little-endian bytes spell.
pub open spec fn from_le32(b: Seq<u8>) -> int {
    b[0] + 256 * b[1] + 65536 * b[2] + 16777216 * b[3]
}

/// Reading back the bytes of a number gives the number.
pub proof fn lemma_le32_roundtrip(x: u32)
    ensures
        from_le32(le32(x)) == x,
{
    let b0: u32 = x % 256;
    let b1: u32 = (x / 256) % 256;
    let b2: u32 = (x / 65536) % 256;
    let b3: u32 = (x / 16777216) % 256;
    assert(b0 + 256 * b1 + 65536 * b2 + 16777216 * b3 == x) by (bit_vector)
        requires
            b0 == x % 256,
            b1 == (x / 256) % 256,
            b2 == (x / 65536) % 256,
            b3 == (x / 16777216) % 256,
    ;
    assert(le32(x)[0] == b0);
    assert(le32(x)[1] == b1);
    assert(le32(x)[2] == b2);
    assert(le32(x)[3] == b3);
}

/// The magic bytes of a cooked texture.
pub open spec fn rtex_magic() -> Seq<u8> {
    seq![82u8, 84u8, 69u8, 88u8]
}

/// The magic bytes of a cooked mesh.
pub open spec fn rmsh_magic() -> Seq<u8> {
    seq![82u8, 77u8, 83u8, 72u8]
}

/// Appends the four little-endian bytes of `x`.
fn push_le32(out: &mut Vec<u8>, x: u32)
    ensures
        final(out)@ == old(out)@ + le32(x),
{
    out.push((x % 256) as u8);
    out.push(((x / 256) % 256) as u8);
    out.push(((x / 65536) % 256) as u8);
    out.push(((x / 16777216) % 256) as u8);
    assert(final(out)@ =~= old(out)@ + le32(x));
}

/// Appends all of `bytes`.
fn push_all(out: &mut Vec<u8>, bytes: &[u8])
    ensures
        final(out)@ == old(out)@ + bytes@,
{
    let ghost start = out@;
    let mut i: usize = 0;
    while i < bytes.len()
        invariant
            i <= bytes.len(),
            out@ == start + bytes@.subrange(0, i as int),
        decreases bytes.len() - i,
    {
        out.push(bytes[i]);
        assert(bytes@.subrange(0, i + 1) == bytes@.subrange(0, i as int).push(bytes@[i as int]));
        i = i + 1;
    }
    assert(bytes@.subrange(0, bytes@.len() as int) == bytes@);
}

/// The bytes of a cooked mesh with the given counts and data.
pub open spec fn rmsh(vertex_count: u32, index_count: u32, vertex_bytes: Seq<u8>, index_bytes: Seq<u8>) -> Seq<
    u8,
> {
    rmsh_magic() + le32(COOKED_VERSION) + le32(vertex_count) + le32(index_count) + vertex_bytes + index_bytes
}

/// Writes a cooked mesh: header, vertex bytes, index bytes. The counts are
/// stored as `u32`, cut to their low 32 bits as an `as` cast does.
pub fn cook_mesh(vertex_count: usize, index_count: usize, vertex_bytes: &[u8], index_bytes: &[u8]) -> (r: Vec<u8>)
    ensures
        r@ == rmsh(vertex_count as u32, index_count as u32, vertex_bytes@, index_bytes@),
{
    let mut out: Vec<u8> = Vec::new();
    out.push(82u8);
    out.push(77u8);
    out.push(83u8);
    out.push(72u8);
    assert(out@ =~= rmsh_magic());
    push_le32(&mut out, COOKED_VERSION);
    #[verifier::truncate]
    let vc = vertex_count as u32;
    #[verifier::truncate]
    let ic = index_count as u32;
    push_le32(&mut out, vc);
    push_le32(&mut out, ic);
    push_all(&mut out, vertex_bytes);
    push_all(&mut out, index_bytes);
    out
}

/// The pixel formats a GLB image may have.
#[derive(Clone, Copy, Debug, PartialEq, Eq, Structural)]
pub enum ImageFormat {
    R8,
    R8G8,
    R8G8B8,
    R8G8B8A8,
    R16,
    R16G16,
    R16G16B16,
    R16G16B16A16,
    R32G32B32FLOAT,
    R32G32B32A32FLOAT,
}

/// Why an asset could not be cooked.
#[derive(Clone, Copy, Debug, PartialEq, Eq, Structural)]
pub enum AssetError {
    /// The image's pixel format has no RGBA8 form here.
    UnsupportedImageFormat(ImageFormat),
    /// The OBJ file holds no mesh.
    NoMeshes,
    /// The OBJ file holds more than one mesh.
    TooManyMeshes(usize),
}

/// RGB pixels with an opaque alpha byte added to each whole pixel; a trailing
/// partial pixel is dropped.
pub open spec fn rgb_to_rgba(p: Seq<u8>) -> Seq<u8>
    decreases p.len(),
{
    if p.len() < 3 {
        Seq::empty()
    } else {
        seq![p[0], p[1], p[2], 255u8] + rgb_to_rgba(p.subrange(3, p.len() as int))
    }
}

/// The RGBA8 pixels of an image, if its format has them: RGBA8 as it is,
/// RGB8 with opaque alpha.
pub open spec fn rgba_pixels(format: ImageFormat, pixels: Seq<u8>) -> Option<Seq<u8>> {
    match format {
        ImageFormat::R8G8B8A8 => Some(pixels),
        ImageFormat::R8G8B8 => Some(rgb_to_rgba(pixels)),
        _ => None,
    }
}

/// The bytes of a cooked texture.
pub open spec fn rtex(width: u32, height: u32, rgba: Seq<u8>) -> Seq<u8> {
    rtex_magic() + le32(COOKED_VERSION) + le32(width) + le32(height) + rgba
}

/// `rgb_to_rgba` of the pixels from `k` on, in groups of three.
proof fn lemma_rgb_step(p: Seq<u8>, k: int)
    requires
        0 <= k,
        k + 3 <= p.len(),
    ensures
        rgb_to_rgba(p.subrange(k, p.len() as int)) == seq![p[k], p[k + 1], p[k + 2], 255u8] + rgb_to_rgba(
            p.subrange(k + 3, p.len() as int),
        ),
{
    let s = p.subrange(k, p.len() as int);
    assert(s.subrange(3, s.len() as int) == p.subrange(k + 3, p.len() as int));
}

/// Converts a GLB image to a cooked texture; only RGBA8 and RGB8 images have
/// a cooked form.
pub fn image_to_rtex(format: ImageFormat, width: u32, height: u32, pixels: &[u8]) -> (r: Result<Vec<u8>, AssetError>)
    ensures
        r matches Ok(bytes) ==> rgba_pixels(format, pixels@) matches Some(rgba) && bytes@ == rtex(
            width,
            height,
            rgba,
        ),
        r is Err <==> rgba_pixels(format, pixels@) is None,
        r matches Err(e) ==> e == AssetError::UnsupportedImageFormat(format),
{
    let mut out: Vec<u8> = Vec::new();
    out.push(82u8);
    out.push(84u8);
    out.push(69u8);
    out.push(88u8);
    assert(out@ =~= rtex_magic());
    push_le32(&mut out, COOKED_VERSION);
    push_le32(&mut out, width);
    push_le32(&mut out, height);
    match format {
        ImageFormat::R8G8B8A8 => {
            push_all(&mut out, pixels);
            Ok(out)
        },
        ImageFormat::R8G8B8 => {
            let ghost head = out@;
            assert(pixels@.subrange(0, pixels@.len() as int) == pixels@);
            let mut k: usize = 0;
            while pixels.len() - k >= 3
                invariant
                    k <= pixels.len(),
                    head + rgb_to_rgba(pixels@) == out@ + rgb_to_rgba(pixels@.subrange(k as int, pixels@.len() as int)),
                decreases pixels.len() - k,
            {
                proof {
                    lemma_rgb_step(pixels@, k as int);
                }
                let ghost before = out@;
                out.push(pixels[k]);
                out.push(pixels[k + 1]);
                out.push(pixels[k + 2]);
                out.push(255u8);
                assert(out@ =~= before + seq![pixels@[k as int], pixels@[k + 1], pixels@[k + 2], 255u8]);
                k = k + 3;
            }
            assert(rgb_to_rgba(pixels@.subrange(k as int, pixels@.len() as int)) =~= Seq::<u8>::empty());
            assert(pixels@.subrange(0, pixels@.len() as int) == pixels@);
            Ok(out)
        },
        _ => Err(AssetError::UnsupportedImageFormat(format)),
    }
}

/// Reads the little-endian `u32` at `at`.
fn read_le32(bytes: &[u8], at: usize) -> (r: u32)
    requires
        at + 4 <= bytes.len(),
    ensures
        r == from_le32(bytes@.subrange(at as int, at + 4)),
{
    let b0 = bytes[at] as u32;
    let b1 = bytes[at + 1] as u32;
    let b2 = bytes[at + 2] as u32;
    let b3 = bytes[at + 3] as u32;
    b0 + 256 * b1 + 65536 * b2 + 16777216 * b3
}

/// Splits a cooked texture into its pixels, width, height and version; the
/// magic is not checked. Needs the 16 header bytes.
pub fn decode_rtex(bytes: &[u8]) -> (r: (&[u8], u32, u32, u32))
    requires
        bytes@.len() >= 16,
    ensures
        r.0@ == bytes@.subrange(16, bytes@.len() as int),
        r.1 == from_le32(bytes@.subrange(8, 12)),
        r.2 == from_le32(bytes@.subrange(12, 16)),
        r.3 == from_le32(bytes@.subrange(4, 8)),
{
    let version = read_le32(bytes, 4);
    let w = read_le32(bytes, 8);
    let h = read_le32(bytes, 12);
    let pixels = &bytes[16..bytes.len()];
    (pixels, w, h, version)
}

/// The sixteen header bytes: magic, version and two numbers.
pub open spec fn header(magic: Seq<u8>, a: u32, b: u32) -> Seq<u8> {
    magic + le32(COOKED_VERSION) + le32(a) + le32(b)
}

/// A header reads back as the numbers it was written with.
proof fn lemma_header(magic: Seq<u8>, a: u32, b: u32, body: Seq<u8>)
    requires
        magic.len() == 4,
    ensures
        (header(magic, a, b) + body).len() == 16 + body.len(),
        (header(magic, a, b) + body).subrange(0, 4) == magic,
        from_le32((header(magic, a, b) + body).subrange(4, 8)) == COOKED_VERSION,
        from_le32((header(magic, a, b) + body).subrange(8, 12)) == a,
        from_le32((header(magic, a, b) + body).subrange(12, 16)) == b,
        (header(magic, a, b) + body).subrange(16, 16 + body.len() as int) == body,
{
    let h = header(magic, a, b);
    let all = h + body;
    assert(h.len() == 16);
    assert(all.subrange(0, 4) =~= magic);
    assert(all.subrange(4, 8) =~= le32(COOKED_VERSION));
    assert(all.subrange(8, 12) =~= le32(a));
    assert(all.subrange(12, 16) =~= le32(b));
    assert(all.subrange(16, 16 + body.len() as int) =~= body);
    lemma_le32_roundtrip(COOKED_VERSION);
    lemma_le32_roundtrip(a);
    lemma_le32_roundtrip(b);
}

/// A cooked texture reads back as the width, height, pixels and version it was
/// written with.
pub proof fn lemma_rtex_roundtrip(width: u32, height: u32, rgba: Seq<u8>)
    ensures
        rtex(width, height, rgba).len() >= 16,
        from_le32(rtex(width, height, rgba).subrange(4, 8)) == COOKED_VERSION,
        from_le32(rtex(width, height, rgba).subrange(8, 12)) == width,
        from_le32(rtex(width, height, rgba).subrange(12, 16)) == height,
        rtex(width, height, rgba).subrange(16, rtex(width, height, rgba).len() as int) == rgba,
{
    lemma_header(rtex_magic(), width, height, rgba);
    assert(rtex(width, height, rgba) == header(rtex_magic(), width, height) + rgba);
}

/// A cooked mesh's header reads back as the counts it was written with, and
/// its body is the vertex bytes followed by the index bytes.
pub proof fn lemma_rmsh_layout(vertex_count: u32, index_count: u32, vertex_bytes: Seq<u8>, index_bytes: Seq<u8>)
    ensures
        rmsh(vertex_count, index_count, vertex_bytes, index_bytes).subrange(0, 4) == rmsh_magic(),
        from_le32(rmsh(vertex_count, index_count, vertex_bytes, index_bytes).subrange(4, 8)) == COOKED_VERSION,
        from_le32(rmsh(vertex_count, index_count, vertex_bytes, index_bytes).subrange(8, 12)) == vertex_count,
        from_le32(rmsh(vertex_count, index_count, vertex_bytes, index_bytes).subrange(12, 16)) == index_count,
        rmsh(vertex_count, index_count, vertex_bytes, index_bytes).subrange(
            16,
            rmsh(vertex_count, index_count, vertex_bytes, index_bytes).len() as int,
        ) == vertex_bytes + index_bytes,
{
    let body = vertex_bytes + index_bytes;
    lemma_header(rmsh_magic(), vertex_count, index_count, body);
    assert(rmsh(vertex_count, index_count, vertex_bytes, index_bytes) =~= header(
        rmsh_magic(),
        vertex_count,
        index_count,
    ) + body);
}

/// An OBJ file is cooked only if it holds exactly one mesh.
pub fn check_mesh_count(models: usize) -> (r: Result<(), AssetError>)
    ensures
        r is Ok <==> models == 1,
        models == 0 ==> r == Err::<(), AssetError>(AssetError::NoMeshes),
        models > 1 ==> r == Err::<(), AssetError>(AssetError::TooManyMeshes(models)),
{
    if models == 0 {
        Err(AssetError::NoMeshes)
    } else if models > 1 {
        Err(AssetError::TooManyMeshes(models))
    } else {
        Ok(())
    }
}

/// What `Path::with_extension` gives for a path and an extension: the path
/// with the extension of its last component replaced, or added.
pub uninterp spec fn with_extension(path: Seq<char>, ext: Seq<char>) -> Seq<char>;

/// Whether text holds no path separator (`/`, nor `\\` as Windows has it).
pub open spec fn no_separator(s: Seq<char>) -> bool {
    forall|i: int| 0 <= i < s.len() ==> s[i] != '/' && s[i] != '\\'
}

/// `Path::with_extension` on a UTF-8 path, read back as text; the result is
/// named `with_extension` and not spelled out here. `PathBuf::set_extension`
/// panics on an extension that holds a path separator, which `requires`
/// leaves out.
#[verifier::external_body]
fn path_with_extension(path: &str, ext: &str) -> (r: String)
    requires
        no_separator(ext@),
    ensures
        r@ == with_extension(path@, ext@),
{
    std::path::Path::new(path).with_extension(ext).to_string_lossy().into_owned()
}

/// The asset rules the engine knows, one per kind of conversion.
#[derive(Clone, Copy, Debug, PartialEq, Eq, Structural)]
pub enum AssetRule {
    HlslToWgsl,
    PngToCookedTex,
    ObjToCookedMesh,
    ObjToRmesh,
    GlbToCookedMesh,
}

/// The built-in rule set, in the order the rules run.
pub fn default_rules() -> (r: Vec<AssetRule>)
    ensures
        r@ == seq![AssetRule::HlslToWgsl, AssetRule::PngToCookedTex, AssetRule::ObjToCookedMesh],
{
    let mut r: Vec<AssetRule> = Vec::new();
    r.push(AssetRule::HlslToWgsl);
    r.push(AssetRule::PngToCookedTex);
    r.push(AssetRule::ObjToCookedMesh);
    assert(r@ =~= seq![AssetRule::HlslToWgsl, AssetRule::PngToCookedTex, AssetRule::ObjToCookedMesh]);
    r
}

/// GLB to cooked mesh, with the base color and normal textures written beside
/// it as cooked textures.
pub struct GlbToCookedMesh;

/// OBJ to cooked mesh.
pub struct ObjToCookedMesh;

/// OBJ to `.rmesh`, the same format under another extension.
pub struct ObjToRmesh;

impl GlbToCookedMesh {
    /// The rule's name.
    pub fn name(&self) -> (r: &'static str)
        ensures
            r@ == "glb_to_cooked_mesh"@,
    {
        "glb_to_cooked_mesh"
    }

    /// The inputs the rule takes.
    pub fn input_glob(&self) -> (r: &'static str)
        ensures
            r@ == "**/*.glb"@,
    {
        "**/*.glb"
    }

    /// The file the rule writes for an input: the input with extension
    /// `cooked_mesh`.
    pub fn output_for(&self, input: &str) -> (r: String)
        ensures
            r@ == with_extension(input@, "cooked_mesh"@),
    {
        proof {
            reveal_strlit("cooked_mesh");
        }
        path_with_extension(input, "cooked_mesh")
    }
}

impl ObjToCookedMesh {
    /// The rule's name.
    pub fn name(&self) -> (r: &'static str)
        ensures
            r@ == "obj_to_cooked_mesh"@,
    {
        "obj_to_cooked_mesh"
    }

    /// The inputs the rule takes.
    pub fn input_glob(&self) -> (r: &'static str)
        ensures
            r@ == "**/*.obj"@,
    {
        "**/*.obj"
    }

    /// The file the rule writes for an input: the input with extension
    /// `cooked_mesh`.
    pub fn output_for(&self, input: &str) -> (r: String)
        ensures
            r@ == with_extension(input@, "cooked_mesh"@),
    {
        proof {
            reveal_strlit("cooked_mesh");
        }
        path_with_extension(input, "cooked_mesh")
    }
}

impl ObjToRmesh {
    /// The rule's name.
    pub fn name(&self) -> (r: &'static str)
        ensures
            r@ == "obj_to_rmesh"@,
    {
        "obj_to_rmesh"
    }

    /// The inputs the rule takes.
    pub fn input_glob(&self) -> (r: &'static str)
        ensures
            r@ == "**/*.obj"@,
    {
        "**/*.obj"
    }

    /// The file the rule writes for an input: the input with extension `rmesh`.
    pub fn output_for(&self, input: &str) -> (r: String)
        ensures
            r@ == with_extension(input@, "rmesh"@),
    {
        proof {
            reveal_strlit("rmesh");
        }
        path_with_extension(input, "rmesh")
    }
}

/// The name of the texture written beside a GLB mesh: `{stem}_albedo` for
/// the base color, `{stem}_normal` for the normal map, with extension
/// `cooked_tex`.
pub fn side_texture_name(stem: &str, normal: bool) -> (r: String)
    ensures
        r@ == stem@ + (if normal { "_normal.cooked_tex"@ } else { "_albedo.cooked_tex"@ }),
{
    let mut r = stem.to_string();
    if normal {
        r.append("_normal.cooked_tex");
    } else {
        r.append("_albedo.cooked_tex");
    }
    r
}

/// Why a GLB file gives no mesh.
#[derive(Clone, Copy, Debug, PartialEq, Eq, Structural)]
pub enum GlbError {
    NoMeshes,
    NoPrimitives,
    MissingPositions,
    MissingNormals,
    MissingUvs,
    MissingIndices,
}

/// What a GLB file holds of the parts a cooked mesh is made from: a first
/// mesh, a first primitive in it, and the primitive's attributes.
#[derive(Clone, Copy, Debug, PartialEq, Eq, Structural)]
pub struct GlbParts {
    pub has_mesh: bool,
    pub has_primitive: bool,
    pub has_positions: bool,
    pub has_normals: bool,
    pub has_uvs: bool,
    pub has_indices: bool,
}

/// Whether a GLB file can be cooked: the first missing part, in the order the
/// rule reads them (mesh, primitive, positions, normals, first UV set,
/// indices), is the error.
pub fn check_glb_parts(p: &GlbParts) -> (r: Result<(), GlbError>)
    ensures
        r == (if !p.has_mesh {
            Err(GlbError::NoMeshes)
        } else if !p.has_primitive {
            Err(GlbError::NoPrimitives)
        } else if !p.has_positions {
            Err(GlbError::MissingPositions)
        } else if !p.has_normals {
            Err(GlbError::MissingNormals)
        } else if !p.has_uvs {
            Err(GlbError::MissingUvs)
        } else if !p.has_indices {
            Err(GlbError::MissingIndices)
        } else {
            Ok(())
        }),
{
    if !p.has_mesh {
        Err(GlbError::NoMeshes)
    } else if !p.has_primitive {
        Err(GlbError::NoPrimitives)
    } else if !p.has_positions {
        Err(GlbError::MissingPositions)
    } else if !p.has_normals {
        Err(GlbError::MissingNormals)
    } else if !p.has_uvs {
        Err(GlbError::MissingUvs)
    } else if !p.has_indices {
        Err(GlbError::MissingIndices)
    } else {
        Ok(())
    }
}

/// A texture written beside a cooked GLB mesh: the normal map or the base
/// color, and the image of the GLB it comes from.
#[derive(Clone, Copy, Debug, PartialEq, Eq, Structural)]
pub struct SideTexture {
    pub normal: bool,
    pub image: usize,
}

/// The side texture for an image index, where the GLB has that image.
pub open spec fn side_texture(image: Option<usize>, image_count: usize, normal: bool) -> Seq<SideTexture> {
    match image {
        Some(i) => if i < image_count {
            seq![SideTexture { normal, image: i }]
        } else {
            Seq::empty()
        },
        None => Seq::empty(),
    }
}

/// The textures written beside a cooked GLB mesh, in order: for the first
/// material, if there is one, its base color texture and then its normal
/// texture, each where the material names one and the GLB holds that image.
pub fn glb_side_textures(material: Option<(Option<usize>, Option<usize>)>, image_count: usize) -> (r: Vec<
    SideTexture,
>)
    ensures
        r@ == (match material {
            Some((base, normal)) => side_texture(base, image_count, false) + side_texture(normal, image_count, true),
            None => Seq::empty(),
        }),
{
    let mut r: Vec<SideTexture> = Vec::new();
    if let Some((base, normal)) = material {
        if let Some(i) = base {
            if i < image_count {
                r.push(SideTexture { normal: false, image: i });
            }
        }
        let ghost first = r@;
        if let Some(i) = normal {
            if i < image_count {
                r.push(SideTexture { normal: true, image: i });
            }
        }
        assert(r@ =~= first + side_texture(normal, image_count, true));
    }
    r
}

} // verus!
