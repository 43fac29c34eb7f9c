//! The assets of the example scenes (a chess board, a terrain and a tree).

use vstd::prelude::*;
use crate::store::{ResourceStore, bytes_view, chars_view};

verus! {

/// The path of the asset that `chess_bishop_gltf` returns.
pub const CHESS_BISHOP_GLTF_PATH: &'static str = "res/models/chessboard/bishop.glb";

/// The path of the asset that `chess_board_gltf` returns.
pub const CHESS_BOARD_GLTF_PATH: &'static str = "res/models/chessboard/board.glb";

/// The path of the asset that `chess_king_gltf` returns.
pub const CHESS_KING_GLTF_PATH: &'static str = "res/models/chessboard/king.glb";

/// The path of the asset that `chess_knight_gltf` returns.
pub const CHESS_KNIGHT_GLTF_PATH: &'static str = "res/models/chessboard/knight.glb";

/// The path of the asset that `chess_pawn_gltf` returns.
pub const CHESS_PAWN_GLTF_PATH: &'static str = "res/models/chessboard/pawn.glb";

/// The path of the asset that `chess_queen_gltf` returns.
pub const CHESS_QUEEN_GLTF_PATH: &'static str = "res/models/chessboard/queen.glb";

/// The path of the asset that `chess_rook_gltf` returns.
pub const CHESS_ROOK_GLTF_PATH: &'static str = "res/models/chessboard/rook.glb";

/// The path of the asset that `terrain` returns.
pub const TERRAIN_PATH: &'static str = "res/models/chessboard/terrain.glb";

/// The path of the asset that `tree` returns.
pub const TREE_PATH: &'static str = "res/models/chessboard/tree.glb";

/// The path of the asset that `chess_figures_black_albedo` returns.
pub const CHESS_FIGURES_BLACK_ALBEDO_PATH: &'static str = "res/textures/chessboard/Figures_Black_basecolor.png";

/// The path of the asset that `chess_figures_white_albedo` returns.
pub const CHESS_FIGURES_WHITE_ALBEDO_PATH: &'static str = "res/textures/chessboard/Figures_White_basecolor.png";

/// The path of the asset that `chess_figures_metallic` returns.
pub const CHESS_FIGURES_METALLIC_PATH: &'static str = "res/textures/chessboard/Figures_metallic.png";

/// The path of the asset that `chess_figures_normal` returns.
pub const CHESS_FIGURES_NORMAL_PATH: &'static str = "res/textures/chessboard/Figures_normal.png";

/// The path of the asset that `chess_figures_black_roughness` returns.
pub const CHESS_FIGURES_BLACK_ROUGHNESS_PATH: &'static str = "res/textures/chessboard/Figures_Black_roughness.png";

/// The path of the asset that `chess_figures_white_roughness` returns.
pub const CHESS_FIGURES_WHITE_ROUGHNESS_PATH: &'static str = "res/textures/chessboard/Figures_White_roughness.png";

/// The path of the asset that `chess_board_albedo` returns.
pub const CHESS_BOARD_ALBEDO_PATH: &'static str = "res/textures/chessboard/Board_basecolor.png";

/// The path of the asset that `chess_board_normal` returns.
pub const CHESS_BOARD_NORMAL_PATH: &'static str = "res/textures/chessboard/Board_normal.png";

/// The path of the asset that `chess_board_metallic` returns.
pub const CHESS_BOARD_METALLIC_PATH: &'static str = "res/textures/chessboard/Board_metallic.png";

/// The path of the asset that `chess_board_roughness` returns.
pub const CHESS_BOARD_ROUGHNESS_PATH: &'static str = "res/textures/chessboard/Board_roughness.png";

/// The path of the asset that `terrain_albedo` returns.
pub const TERRAIN_ALBEDO_PATH: &'static str = "res/textures/chessboard/Terrain_basecolor.png";

/// The path of the asset that `terrain_normal` returns.
pub const TERRAIN_NORMAL_PATH: &'static str = "res/textures/chessboard/Terrain_normal.png";

/// The path of the asset that `terrain_metallic` returns.
pub const TERRAIN_METALLIC_PATH: &'static str = "res/textures/chessboard/Terrain_metallic.png";

/// The path of the asset that `terrain_roughness` returns.
pub const TERRAIN_ROUGHNESS_PATH: &'static str = "res/textures/chessboard/Terrain_roughness.png";

/// The path of the asset that `tree_albedo` returns.
pub const TREE_ALBEDO_PATH: &'static str = "res/textures/chessboard/Tree_basecolor.png";

/// The path of the asset that `tree_normal` returns.
pub const TREE_NORMAL_PATH: &'static str = "res/textures/chessboard/Tree_normal.png";

/// The path of the asset that `tree_roughness` returns.
pub const TREE_ROUGHNESS_PATH: &'static str = "res/textures/chessboard/Tree_roughness.png";

/// The path of the asset that `suzanne` returns.
pub const SUZANNE_PATH: &'static str = "res/models/engine/suzanne.glb";

/// The path of the asset that `skybox_texture_hdr` returns.
pub const SKYBOX_TEXTURE_HDR_PATH: &'static str = "res/textures/engine/skybox.hdr";

/// The path of the asset that `uv_checker` returns.
pub const UV_CHECKER_PATH: &'static str = "res/textures/engine/uv_checker.png";

/// The bytes of `res/models/chessboard/bishop.glb`, if they were registered.
pub fn chess_bishop_gltf(store: &ResourceStore) -> (r: Option<&[u8]>)
    ensures
        bytes_view(r) == store.binary_asset(CHESS_BISHOP_GLTF_PATH@),
{
    store.binary(CHESS_BISHOP_GLTF_PATH)
}

/// The bytes of `res/models/chessboard/board.glb`, if they were registered.
pub fn chess_board_gltf(store: &ResourceStore) -> (r: Option<&[u8]>)
    ensures
        bytes_view(r) == store.binary_asset(CHESS_BOARD_GLTF_PATH@),
{
    store.binary(CHESS_BOARD_GLTF_PATH)
}

/// The bytes of `res/models/chessboard/king.glb`, if they were registered.
pub fn chess_king_gltf(store: &ResourceStore) -> (r: Option<&[u8]>)
    ensures
        bytes_view(r) == store.binary_asset(CHESS_KING_GLTF_PATH@),
{
    store.binary(CHESS_KING_GLTF_PATH)
}

/// The bytes of `res/models/chessboard/knight.glb`, if they were registered.
pub fn chess_knight_gltf(store: &ResourceStore) -> (r: Option<&[u8]>)
    ensures
        bytes_view(r) == store.binary_asset(CHESS_KNIGHT_GLTF_PATH@),
{
    store.binary(CHESS_KNIGHT_GLTF_PATH)
}

/// The bytes of `res/models/chessboard/pawn.glb`, if they were registered.
pub fn chess_pawn_gltf(store: &ResourceStore) -> (r: Option<&[u8]>)
    ensures
        bytes_view(r) == store.binary_asset(CHESS_PAWN_GLTF_PATH@),
{
    store.binary(CHESS_PAWN_GLTF_PATH)
}

/// The bytes of `res/models/chessboard/queen.glb`, if they were registered.
pub fn chess_queen_gltf(store: &ResourceStore) -> (r: Option<&[u8]>)
    ensures
        bytes_view(r) == store.binary_asset(CHESS_QUEEN_GLTF_PATH@),
{
    store.binary(CHESS_QUEEN_GLTF_PATH)
}

/// The bytes of `res/models/chessboard/rook.glb`, if they were registered.
pub fn chess_rook_gltf(store: &ResourceStore) -> (r: Option<&[u8]>)
    ensures
        bytes_view(r) == store.binary_asset(CHESS_ROOK_GLTF_PATH@),
{
    store.binary(CHESS_ROOK_GLTF_PATH)
}

/// The bytes of `res/models/chessboard/terrain.glb`, if they were registered.
pub fn terrain(store: &ResourceStore) -> (r: Option<&[u8]>)
    ensures
        bytes_view(r) == store.binary_asset(TERRAIN_PATH@),
{
    store.binary(TERRAIN_PATH)
}

/// The bytes of `res/models/chessboard/tree.glb`, if they were registered.
pub fn tree(store: &ResourceStore) -> (r: Option<&[u8]>)
    ensures
        bytes_view(r) == store.binary_asset(TREE_PATH@),
{
    store.binary(TREE_PATH)
}

/// The bytes of `res/textures/chessboard/Figures_Black_basecolor.png`, if they were registered.
pub fn chess_figures_black_albedo(store: &ResourceStore) -> (r: Option<&[u8]>)
    ensures
        bytes_view(r) == store.binary_asset(CHESS_FIGURES_BLACK_ALBEDO_PATH@),
{
    store.binary(CHESS_FIGURES_BLACK_ALBEDO_PATH)
}

/// The bytes of `res/textures/chessboard/Figures_White_basecolor.png`, if they were registered.
pub fn chess_figures_white_albedo(store: &ResourceStore) -> (r: Option<&[u8]>)
    ensures
        bytes_view(r) == store.binary_asset(CHESS_FIGURES_WHITE_ALBEDO_PATH@),
{
    store.binary(CHESS_FIGURES_WHITE_ALBEDO_PATH)
}

/// The bytes of `res/textures/chessboard/Figures_metallic.png`, if they were registered.
pub fn chess_figures_metallic(store: &ResourceStore) -> (r: Option<&[u8]>)
    ensures
        bytes_view(r) == store.binary_asset(CHESS_FIGURES_METALLIC_PATH@),
{
    store.binary(CHESS_FIGURES_METALLIC_PATH)
}

/// The bytes of `res/textures/chessboard/Figures_normal.png`, if they were registered.
pub fn chess_figures_normal(store: &ResourceStore) -> (r: Option<&[u8]>)
    ensures
        bytes_view(r) == store.binary_asset(CHESS_FIGURES_NORMAL_PATH@),
{
    store.binary(CHESS_FIGURES_NORMAL_PATH)
}

/// The bytes of `res/textures/chessboard/Figures_Black_roughness.png`, if they were registered.
pub fn chess_figures_black_roughness(store: &ResourceStore) -> (r: Option<&[u8]>)
    ensures
        bytes_view(r) == store.binary_asset(CHESS_FIGURES_BLACK_ROUGHNESS_PATH@),
{
    store.binary(CHESS_FIGURES_BLACK_ROUGHNESS_PATH)
}

/// The bytes of `res/textures/chessboard/Figures_White_roughness.png`, if they were registered.
pub fn chess_figures_white_roughness(store: &ResourceStore) -> (r: Option<&[u8]>)
    ensures
        bytes_view(r) == store.binary_asset(CHESS_FIGURES_WHITE_ROUGHNESS_PATH@),
{
    store.binary(CHESS_FIGURES_WHITE_ROUGHNESS_PATH)
}

/// The bytes of `res/textures/chessboard/Board_basecolor.png`, if they were registered.
pub fn chess_board_albedo(store: &ResourceStore) -> (r: Option<&[u8]>)
    ensures
        bytes_view(r) == store.binary_asset(CHESS_BOARD_ALBEDO_PATH@),
{
    store.binary(CHESS_BOARD_ALBEDO_PATH)
}

/// The bytes of `res/textures/chessboard/Board_normal.png`, if they were registered.
pub fn chess_board_normal(store: &ResourceStore) -> (r: Option<&[u8]>)
    ensures
        bytes_view(r) == store.binary_asset(CHESS_BOARD_NORMAL_PATH@),
{
    store.binary(CHESS_BOARD_NORMAL_PATH)
}

/// The bytes of `res/textures/chessboard/Board_metallic.png`, if they were registered.
pub fn chess_board_metallic(store: &ResourceStore) -> (r: Option<&[u8]>)
    ensures
        bytes_view(r) == store.binary_asset(CHESS_BOARD_METALLIC_PATH@),
{
    store.binary(CHESS_BOARD_METALLIC_PATH)
}

/// The bytes of `res/textures/chessboard/Board_roughness.png`, if they were registered.
pub fn chess_board_roughness(store: &ResourceStore) -> (r: Option<&[u8]>)
    ensures
        bytes_view(r) == store.binary_asset(CHESS_BOARD_ROUGHNESS_PATH@),
{
    store.binary(CHESS_BOARD_ROUGHNESS_PATH)
}

/// The bytes of `res/textures/chessboard/Terrain_basecolor.png`, if they were registered.
pub fn terrain_albedo(store: &ResourceStore) -> (r: Option<&[u8]>)
    ensures
        bytes_view(r) == store.binary_asset(TERRAIN_ALBEDO_PATH@),
{
    store.binary(TERRAIN_ALBEDO_PATH)
}

/// The bytes of `res/textures/chessboard/Terrain_normal.png`, if they were registered.
pub fn terrain_normal(store: &ResourceStore) -> (r: Option<&[u8]>)
    ensures
        bytes_view(r) == store.binary_asset(TERRAIN_NORMAL_PATH@),
{
    store.binary(TERRAIN_NORMAL_PATH)
}

/// The bytes of `res/textures/chessboard/Terrain_metallic.png`, if they were registered.
pub fn terrain_metallic(store: &ResourceStore) -> (r: Option<&[u8]>)
    ensures
        bytes_view(r) == store.binary_asset(TERRAIN_METALLIC_PATH@),
{
    store.binary(TERRAIN_METALLIC_PATH)
}

/// The bytes of `res/textures/chessboard/Terrain_roughness.png`, if they were registered.
pub fn terrain_roughness(store: &ResourceStore) -> (r: Option<&[u8]>)
    ensures
        bytes_view(r) == store.binary_asset(TERRAIN_ROUGHNESS_PATH@),
{
    store.binary(TERRAIN_ROUGHNESS_PATH)
}

/// The bytes of `res/textures/chessboard/Tree_basecolor.png`, if they were registered.
pub fn tree_albedo(store: &ResourceStore) -> (r: Option<&[u8]>)
    ensures
        bytes_view(r) == store.binary_asset(TREE_ALBEDO_PATH@),
{
    store.binary(TREE_ALBEDO_PATH)
}

/// The bytes of `res/textures/chessboard/Tree_normal.png`, if they were registered.
pub fn tree_normal(store: &ResourceStore) -> (r: Option<&[u8]>)
    ensures
        bytes_view(r) == store.binary_asset(TREE_NORMAL_PATH@),
{
    store.binary(TREE_NORMAL_PATH)
}

/// The bytes of `res/textures/chessboard/Tree_roughness.png`, if they were registered.
pub fn tree_roughness(store: &ResourceStore) -> (r: Option<&[u8]>)
    ensures
        bytes_view(r) == store.binary_asset(TREE_ROUGHNESS_PATH@),
{
    store.binary(TREE_ROUGHNESS_PATH)
}

/// The bytes of `res/models/engine/suzanne.glb`, if they were registered.
pub fn suzanne(store: &ResourceStore) -> (r: Option<&[u8]>)
    ensures
        bytes_view(r) == store.binary_asset(SUZANNE_PATH@),
{
    store.binary(SUZANNE_PATH)
}

/// The bytes of `res/textures/engine/skybox.hdr`, if they were registered.
pub fn skybox_texture_hdr(store: &ResourceStore) -> (r: Option<&[u8]>)
    ensures
        bytes_view(r) == store.binary_asset(SKYBOX_TEXTURE_HDR_PATH@),
{
    store.binary(SKYBOX_TEXTURE_HDR_PATH)
}

/// The bytes of `res/textures/engine/uv_checker.png`, if they were registered.
pub fn uv_checker(store: &ResourceStore) -> (r: Option<&[u8]>)
    ensures
        bytes_view(r) == store.binary_asset(UV_CHECKER_PATH@),
{
    store.binary(UV_CHECKER_PATH)
}

} // verus!
