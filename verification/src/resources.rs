//! The engine's own assets: its default models, textures and shaders.

use vstd::prelude::*;
use crate::store::{ResourceStore, bytes_view, chars_view};

verus! {

/// The path of the asset that `suzanne` returns.
pub const SUZANNE_PATH: &'static str = "res/models/suzanne.glb";

/// The path of the asset that `skybox` returns.
pub const SKYBOX_PATH: &'static str = "res/models/skybox.glb";

/// The path of the asset that `post_processing_vertex` returns.
pub const POST_PROCESSING_VERTEX_PATH: &'static str = "res/shader/post_processing/post_processing_vert.glsl";

/// The path of the asset that `post_processing_bloom_blur_fragment` returns.
pub const POST_PROCESSING_BLOOM_BLUR_FRAGMENT_PATH: &'static str = "res/shader/post_processing/bloom/enigma_bloom_blur.glsl";

/// The path of the asset that `post_processing_bloom_combine_fragment` returns.
pub const POST_PROCESSING_BLOOM_COMBINE_FRAGMENT_PATH: &'static str = "res/shader/post_processing/bloom/enigma_bloom_combine.glsl";

/// The path of the asset that `post_processing_bloom_extract_fragment` returns.
pub const POST_PROCESSING_BLOOM_EXTRACT_FRAGMENT_PATH: &'static str = "res/shader/post_processing/bloom/enigma_bloom_extract.glsl";

/// The path of the asset that `post_processing_edge_fragment` returns.
pub const POST_PROCESSING_EDGE_FRAGMENT_PATH: &'static str = "res/shader/post_processing/edge/enigma_edge_detection.glsl";

/// The path of the asset that `post_processing_grayscale_fragment` returns.
pub const POST_PROCESSING_GRAYSCALE_FRAGMENT_PATH: &'static str = "res/shader/post_processing/grayscale/enigma_grayscale.glsl";

/// The path of the asset that `fragment_shader` returns.
pub const FRAGMENT_SHADER_PATH: &'static str = "res/shader/enigma_fragment_shader.glsl";

/// The path of the asset that `vertex_shader` returns.
pub const VERTEX_SHADER_PATH: &'static str = "res/shader/enigma_vertex_shader.glsl";

/// The path of the asset that `fragment_unlit_shader` returns.
pub const FRAGMENT_UNLIT_SHADER_PATH: &'static str = "res/shader/enigma_fragment_unlit.glsl";

/// The path of the asset that `uv_checker` returns.
pub const UV_CHECKER_PATH: &'static str = "res/textures/uv_checker.png";

/// The path of the asset that `skybox_texture` returns.
pub const SKYBOX_TEXTURE_PATH: &'static str = "res/textures/skybox.png";

/// The path of the asset that `skybox_texture_hdr` returns.
pub const SKYBOX_TEXTURE_HDR_PATH: &'static str = "res/textures/skybox.hdr";

/// The path of the asset that `icon` returns.
pub const ICON_PATH: &'static str = "res/textures/icon.png";

/// The path of the asset that `chess_bishop_gltf` returns.
pub const CHESS_BISHOP_GLTF_PATH: &'static str = "res/models/bishop.glb";

/// The path of the asset that `chess_board_gltf` returns.
pub const CHESS_BOARD_GLTF_PATH: &'static str = "res/models/board.glb";

/// The path of the asset that `chess_king_gltf` returns.
pub const CHESS_KING_GLTF_PATH: &'static str = "res/models/king.glb";

/// The path of the asset that `chess_knight_gltf` returns.
pub const CHESS_KNIGHT_GLTF_PATH: &'static str = "res/models/knight.glb";

/// The path of the asset that `chess_pawn_gltf` returns.
pub const CHESS_PAWN_GLTF_PATH: &'static str = "res/models/pawn.glb";

/// The path of the asset that `chess_queen_gltf` returns.
pub const CHESS_QUEEN_GLTF_PATH: &'static str = "res/models/queen.glb";

/// The path of the asset that `chess_rook_gltf` returns.
pub const CHESS_ROOK_GLTF_PATH: &'static str = "res/models/rook.glb";

/// The path of the asset that `chess_figures_black_albedo` returns.
pub const CHESS_FIGURES_BLACK_ALBEDO_PATH: &'static str = "res/textures/Figures_Black_basecolor.png";

/// The path of the asset that `chess_figures_white_albedo` returns.
pub const CHESS_FIGURES_WHITE_ALBEDO_PATH: &'static str = "res/textures/Figures_White_basecolor.png";

/// The path of the asset that `chess_figures_metallic` returns.
pub const CHESS_FIGURES_METALLIC_PATH: &'static str = "res/textures/Figures_metallic.png";

/// The path of the asset that `chess_figures_normal` returns.
pub const CHESS_FIGURES_NORMAL_PATH: &'static str = "res/textures/Figures_normal.png";

/// The path of the asset that `chess_figures_black_roughness` returns.
pub const CHESS_FIGURES_BLACK_ROUGHNESS_PATH: &'static str = "res/textures/Figures_Black_roughness.png";

/// The path of the asset that `chess_figures_white_roughness` returns.
pub const CHESS_FIGURES_WHITE_ROUGHNESS_PATH: &'static str = "res/textures/Figures_White_roughness.png";

/// The path of the asset that `chess_board_albedo` returns.
pub const CHESS_BOARD_ALBEDO_PATH: &'static str = "res/textures/Board_basecolor.png";

/// The path of the asset that `chess_board_normal` returns.
pub const CHESS_BOARD_NORMAL_PATH: &'static str = "res/textures/Board_normal.png";

/// The path of the asset that `chess_board_metallic` returns.
pub const CHESS_BOARD_METALLIC_PATH: &'static str = "res/textures/Board_metallic.png";

/// The path of the asset that `chess_board_roughness` returns.
pub const CHESS_BOARD_ROUGHNESS_PATH: &'static str = "res/textures/Board_roughness.png";

/// The bytes of `res/models/suzanne.glb`, if they were registered.
pub fn suzanne(store: &ResourceStore) -> (r: Option<&[u8]>)
    ensures
        bytes_view(r) == store.binary_asset(SUZANNE_PATH@),
{
    store.binary(SUZANNE_PATH)
}

/// The bytes of `res/models/skybox.glb`, if they were registered.
pub fn skybox(store: &ResourceStore) -> (r: Option<&[u8]>)
    ensures
        bytes_view(r) == store.binary_asset(SKYBOX_PATH@),
{
    store.binary(SKYBOX_PATH)
}

/// The source text of `res/shader/post_processing/post_processing_vert.glsl`, if it was registered.
pub fn post_processing_vertex(store: &ResourceStore) -> (r: Option<&str>)
    ensures
        chars_view(r) == store.text_asset(POST_PROCESSING_VERTEX_PATH@),
{
    store.text(POST_PROCESSING_VERTEX_PATH)
}

/// The source text of `res/shader/post_processing/bloom/enigma_bloom_blur.glsl`, if it was registered.
pub fn post_processing_bloom_blur_fragment(store: &ResourceStore) -> (r: Option<&str>)
    ensures
        chars_view(r) == store.text_asset(POST_PROCESSING_BLOOM_BLUR_FRAGMENT_PATH@),
{
    store.text(POST_PROCESSING_BLOOM_BLUR_FRAGMENT_PATH)
}

/// The source text of `res/shader/post_processing/bloom/enigma_bloom_combine.glsl`, if it was registered.
pub fn post_processing_bloom_combine_fragment(store: &ResourceStore) -> (r: Option<&str>)
    ensures
        chars_view(r) == store.text_asset(POST_PROCESSING_BLOOM_COMBINE_FRAGMENT_PATH@),
{
    store.text(POST_PROCESSING_BLOOM_COMBINE_FRAGMENT_PATH)
}

/// The source text of `res/shader/post_processing/bloom/enigma_bloom_extract.glsl`, if it was registered.
pub fn post_processing_bloom_extract_fragment(store: &ResourceStore) -> (r: Option<&str>)
    ensures
        chars_view(r) == store.text_asset(POST_PROCESSING_BLOOM_EXTRACT_FRAGMENT_PATH@),
{
    store.text(POST_PROCESSING_BLOOM_EXTRACT_FRAGMENT_PATH)
}

/// The source text of `res/shader/post_processing/edge/enigma_edge_detection.glsl`, if it was registered.
pub fn post_processing_edge_fragment(store: &ResourceStore) -> (r: Option<&str>)
    ensures
        chars_view(r) == store.text_asset(POST_PROCESSING_EDGE_FRAGMENT_PATH@),
{
    store.text(POST_PROCESSING_EDGE_FRAGMENT_PATH)
}

/// The source text of `res/shader/post_processing/grayscale/enigma_grayscale.glsl`, if it was registered.
pub fn post_processing_grayscale_fragment(store: &ResourceStore) -> (r: Option<&str>)
    ensures
        chars_view(r) == store.text_asset(POST_PROCESSING_GRAYSCALE_FRAGMENT_PATH@),
{
    store.text(POST_PROCESSING_GRAYSCALE_FRAGMENT_PATH)
}

/// The source text of `res/shader/enigma_fragment_shader.glsl`, if it was registered.
pub fn fragment_shader(store: &ResourceStore) -> (r: Option<&str>)
    ensures
        chars_view(r) == store.text_asset(FRAGMENT_SHADER_PATH@),
{
    store.text(FRAGMENT_SHADER_PATH)
}

/// The source text of `res/shader/enigma_vertex_shader.glsl`, if it was registered.
pub fn vertex_shader(store: &ResourceStore) -> (r: Option<&str>)
    ensures
        chars_view(r) == store.text_asset(VERTEX_SHADER_PATH@),
{
    store.text(VERTEX_SHADER_PATH)
}

/// The source text of `res/shader/enigma_fragment_unlit.glsl`, if it was registered.
pub fn fragment_unlit_shader(store: &ResourceStore) -> (r: Option<&str>)
    ensures
        chars_view(r) == store.text_asset(FRAGMENT_UNLIT_SHADER_PATH@),
{
    store.text(FRAGMENT_UNLIT_SHADER_PATH)
}

/// The bytes of `res/textures/uv_checker.png`, if they were registered.
pub fn uv_checker(store: &ResourceStore) -> (r: Option<&[u8]>)
    ensures
        bytes_view(r) == store.binary_asset(UV_CHECKER_PATH@),
{
    store.binary(UV_CHECKER_PATH)
}

/// The bytes of `res/textures/skybox.png`, if they were registered.
pub fn skybox_texture(store: &ResourceStore) -> (r: Option<&[u8]>)
    ensures
        bytes_view(r) == store.binary_asset(SKYBOX_TEXTURE_PATH@),
{
    store.binary(SKYBOX_TEXTURE_PATH)
}

/// The bytes of `res/textures/skybox.hdr`, if they were registered.
pub fn skybox_texture_hdr(store: &ResourceStore) -> (r: Option<&[u8]>)
    ensures
        bytes_view(r) == store.binary_asset(SKYBOX_TEXTURE_HDR_PATH@),
{
    store.binary(SKYBOX_TEXTURE_HDR_PATH)
}

/// The bytes of `res/textures/icon.png`, if they were registered.
pub fn icon(store: &ResourceStore) -> (r: Option<&[u8]>)
    ensures
        bytes_view(r) == store.binary_asset(ICON_PATH@),
{
    store.binary(ICON_PATH)
}

/// The bytes of `res/models/bishop.glb`, if they were registered.
pub fn chess_bishop_gltf(store: &ResourceStore) -> (r: Option<&[u8]>)
    ensures
        bytes_view(r) == store.binary_asset(CHESS_BISHOP_GLTF_PATH@),
{
    store.binary(CHESS_BISHOP_GLTF_PATH)
}

/// The bytes of `res/models/board.glb`, if they were registered.
pub fn chess_board_gltf(store: &ResourceStore) -> (r: Option<&[u8]>)
    ensures
        bytes_view(r) == store.binary_asset(CHESS_BOARD_GLTF_PATH@),
{
    store.binary(CHESS_BOARD_GLTF_PATH)
}

/// The bytes of `res/models/king.glb`, if they were registered.
pub fn chess_king_gltf(store: &ResourceStore) -> (r: Option<&[u8]>)
    ensures
        bytes_view(r) == store.binary_asset(CHESS_KING_GLTF_PATH@),
{
    store.binary(CHESS_KING_GLTF_PATH)
}

/// The bytes of `res/models/knight.glb`, if they were registered.
pub fn chess_knight_gltf(store: &ResourceStore) -> (r: Option<&[u8]>)
    ensures
        bytes_view(r) == store.binary_asset(CHESS_KNIGHT_GLTF_PATH@),
{
    store.binary(CHESS_KNIGHT_GLTF_PATH)
}

/// The bytes of `res/models/pawn.glb`, if they were registered.
pub fn chess_pawn_gltf(store: &ResourceStore) -> (r: Option<&[u8]>)
    ensures
        bytes_view(r) == store.binary_asset(CHESS_PAWN_GLTF_PATH@),
{
    store.binary(CHESS_PAWN_GLTF_PATH)
}

/// The bytes of `res/models/queen.glb`, if they were registered.
pub fn chess_queen_gltf(store: &ResourceStore) -> (r: Option<&[u8]>)
    ensures
        bytes_view(r) == store.binary_asset(CHESS_QUEEN_GLTF_PATH@),
{
    store.binary(CHESS_QUEEN_GLTF_PATH)
}

/// The bytes of `res/models/rook.glb`, if they were registered.
pub fn chess_rook_gltf(store: &ResourceStore) -> (r: Option<&[u8]>)
    ensures
        bytes_view(r) == store.binary_asset(CHESS_ROOK_GLTF_PATH@),
{
    store.binary(CHESS_ROOK_GLTF_PATH)
}

/// The bytes of `res/textures/Figures_Black_basecolor.png`, if they were registered.
pub fn chess_figures_black_albedo(store: &ResourceStore) -> (r: Option<&[u8]>)
    ensures
        bytes_view(r) == store.binary_asset(CHESS_FIGURES_BLACK_ALBEDO_PATH@),
{
    store.binary(CHESS_FIGURES_BLACK_ALBEDO_PATH)
}

/// The bytes of `res/textures/Figures_White_basecolor.png`, if they were registered.
pub fn chess_figures_white_albedo(store: &ResourceStore) -> (r: Option<&[u8]>)
    ensures
        bytes_view(r) == store.binary_asset(CHESS_FIGURES_WHITE_ALBEDO_PATH@),
{
    store.binary(CHESS_FIGURES_WHITE_ALBEDO_PATH)
}

/// The bytes of `res/textures/Figures_metallic.png`, if they were registered.
pub fn chess_figures_metallic(store: &ResourceStore) -> (r: Option<&[u8]>)
    ensures
        bytes_view(r) == store.binary_asset(CHESS_FIGURES_METALLIC_PATH@),
{
    store.binary(CHESS_FIGURES_METALLIC_PATH)
}

/// The bytes of `res/textures/Figures_normal.png`, if they were registered.
pub fn chess_figures_normal(store: &ResourceStore) -> (r: Option<&[u8]>)
    ensures
        bytes_view(r) == store.binary_asset(CHESS_FIGURES_NORMAL_PATH@),
{
    store.binary(CHESS_FIGURES_NORMAL_PATH)
}

/// The bytes of `res/textures/Figures_Black_roughness.png`, if they were registered.
pub fn chess_figures_black_roughness(store: &ResourceStore) -> (r: Option<&[u8]>)
    ensures
        bytes_view(r) == store.binary_asset(CHESS_FIGURES_BLACK_ROUGHNESS_PATH@),
{
    store.binary(CHESS_FIGURES_BLACK_ROUGHNESS_PATH)
}

/// The bytes of `res/textures/Figures_White_roughness.png`, if they were registered.
pub fn chess_figures_white_roughness(store: &ResourceStore) -> (r: Option<&[u8]>)
    ensures
        bytes_view(r) == store.binary_asset(CHESS_FIGURES_WHITE_ROUGHNESS_PATH@),
{
    store.binary(CHESS_FIGURES_WHITE_ROUGHNESS_PATH)
}

/// The bytes of `res/textures/Board_basecolor.png`, if they were registered.
pub fn chess_board_albedo(store: &ResourceStore) -> (r: Option<&[u8]>)
    ensures
        bytes_view(r) == store.binary_asset(CHESS_BOARD_ALBEDO_PATH@),
{
    store.binary(CHESS_BOARD_ALBEDO_PATH)
}

/// The bytes of `res/textures/Board_normal.png`, if they were registered.
pub fn chess_board_normal(store: &ResourceStore) -> (r: Option<&[u8]>)
    ensures
        bytes_view(r) == store.binary_asset(CHESS_BOARD_NORMAL_PATH@),
{
    store.binary(CHESS_BOARD_NORMAL_PATH)
}

/// The bytes of `res/textures/Board_metallic.png`, if they were registered.
pub fn chess_board_metallic(store: &ResourceStore) -> (r: Option<&[u8]>)
    ensures
        bytes_view(r) == store.binary_asset(CHESS_BOARD_METALLIC_PATH@),
{
    store.binary(CHESS_BOARD_METALLIC_PATH)
}

/// The bytes of `res/textures/Board_roughness.png`, if they were registered.
pub fn chess_board_roughness(store: &ResourceStore) -> (r: Option<&[u8]>)
    ensures
        bytes_view(r) == store.binary_asset(CHESS_BOARD_ROUGHNESS_PATH@),
{
    store.binary(CHESS_BOARD_ROUGHNESS_PATH)
}

} // verus!
