//! The herringbone map prefabs: 11 by 22 cell chunks whose fixed
//! openings guarantee map connectivity when they tile. The registry is
//! built once at startup and handed to the map generator; nothing
//! global.

use vstd::prelude::*;
use vstd::string::StringSliceAdditionalSpecFns;
use crate::{AreaSpec, Biome};

verus! {

/// Rows of one chunk.
pub const CHUNK_H: usize = 22;

/// Columns of one chunk.
pub const CHUNK_W: usize = 11;

/// Bytes of a well-formed chunk text: the rows joined by single
/// newlines.
pub const CHUNK_TEXT_LEN: usize = 263;

/// One map prefab: the area it belongs to and its cells, row-major.
pub struct Chunk {
    pub area: AreaSpec,
    pub cells: Vec<u8>,
}

impl Chunk {
    pub open spec fn wf(self) -> bool {
        self.cells@.len() == CHUNK_W * CHUNK_H
    }
}

/// The chunk text has 22 rows of 11 cells joined by single newlines.
pub open spec fn chunk_shape_ok(bs: Seq<u8>) -> bool {
    bs.len() == CHUNK_TEXT_LEN && (forall|i: int| 0 <= i < 21 ==> #[trigger] bs[i * 12 + 11] == 10u8)
}

/// Parse one chunk text: accepted exactly when it has the chunk shape,
/// and then the cells are the text minus its newlines, row-major.
pub fn parse_chunk(area: AreaSpec, data: &str) -> (r: Option<Chunk>)
    ensures
        r is Some <==> chunk_shape_ok(data.spec_bytes()),
        r is Some ==> {
            let c = r->0;
            &&& c.area == area
            &&& c.wf()
            &&& forall|i: int, j: int|
                0 <= i < CHUNK_H && 0 <= j < CHUNK_W ==> #[trigger] c.cells@[i * 11 + j]
                    == data.spec_bytes()[i * 12 + j]
        },
{
    let bs = data.as_bytes();
    if bs.len() != CHUNK_TEXT_LEN {
        return None;
    }
    let mut i: usize = 0;
    while i < 21
        invariant
            i <= 21,
            bs@.len() == CHUNK_TEXT_LEN,
            bs@ == data.spec_bytes(),
            forall|k: int| 0 <= k < i ==> #[trigger] bs@[k * 12 + 11] == 10u8,
        decreases 21 - i,
    {
        if bs[i * 12 + 11] != 10u8 {
            return None;
        }
        i += 1;
    }
    let mut cells: Vec<u8> = Vec::new();
    let mut row: usize = 0;
    while row < CHUNK_H
        invariant
            row <= CHUNK_H,
            bs@.len() == CHUNK_TEXT_LEN,
            bs@ == data.spec_bytes(),
            cells@.len() == row * 11,
            forall|i: int, j: int|
                0 <= i < row && 0 <= j < CHUNK_W ==> #[trigger] cells@[i * 11 + j] == bs@[i * 12
                    + j],
        decreases CHUNK_H - row,
    {
        let mut col: usize = 0;
        while col < CHUNK_W
            invariant
                row < CHUNK_H,
                col <= CHUNK_W,
                bs@.len() == CHUNK_TEXT_LEN,
                bs@ == data.spec_bytes(),
                cells@.len() == row * 11 + col,
                forall|i: int, j: int|
                    0 <= i < row && 0 <= j < CHUNK_W ==> #[trigger] cells@[i * 11 + j] == bs@[i
                        * 12 + j],
                forall|j: int| 0 <= j < col ==> #[trigger] cells@[row * 11 + j] == bs@[row * 12
                    + j],
            decreases CHUNK_W - col,
        {
            cells.push(bs[row * 12 + col]);
            col += 1;
        }
        row += 1;
    }
    Some(Chunk { area, cells })
}

/// Keep a parsed chunk. A malformed template yields a blank rock
/// chunk of the same biome rather than a hole: the registry's shape
/// never depends on the texts.
fn add_chunk(v: &mut Vec<Chunk>, area: AreaSpec, c: Option<Chunk>)
    requires
        c is Some ==> c->0.wf() && c->0.area == area,
    ensures
        final(v)@.len() == old(v)@.len() + 1,
        forall|i: int| 0 <= i < old(v)@.len() ==> final(v)@[i] == old(v)@[i],
        final(v)@.last().wf(),
        final(v)@.last().area == area,
{
    match c {
        Some(c) => v.push(c),
        None => {
            let mut cells: Vec<u8> = Vec::new();
            let mut k: usize = 0;
            while k < CHUNK_W * CHUNK_H
                invariant
                    k <= CHUNK_W * CHUNK_H,
                    cells@.len() == k,
                decreases CHUNK_W * CHUNK_H - k,
            {
                cells.push(37u8);
                k += 1;
            }
            v.push(Chunk { area, cells });
        },
    }
}

/// Build the registry of map prefabs: ten overland chunks followed by
/// seven dungeon chunks.
pub fn init_geomorphs() -> (r: Vec<Chunk>)
    ensures
        r@.len() == 17,
        forall|i: int| 0 <= i < r@.len() ==> (#[trigger] r@[i]).wf(),
        forall|i: int|
            0 <= i < 10 ==> (#[trigger] r@[i]).area == (AreaSpec {
                biome: Biome::Overland,
                depth: 0,
            }),
        forall|i: int|
            10 <= i < 17 ==> (#[trigger] r@[i]).area == (AreaSpec {
                biome: Biome::Dungeon,
                depth: 0,
            }),
{
    let mut v: Vec<Chunk> = Vec::new();
    add_chunk(&mut v, AreaSpec { biome: Biome::Overland, depth: 0 }, parse_chunk(AreaSpec { biome: Biome::Overland, depth: 0 }, "\
%%%%%%%,%%%
%%%%%%%,%%%
%%%%%%%,%%%
,,,%%%,,%%%
%%,,,,,%%%%
%%,%,,,%%%%
%%%,,%,%%%%
%%%%%%%,,,,
%%%%%%%,%%%
%%%%%%%%%%%
%%%%%%%%%%%
%%%%%%%%%%%
%%%%%%%%%%%
%%%%%%%,%%%
%%%%%%,,,,,
%%%%%,,%%%%
,,,,%,,%%%%
%%%,,,%%%%%
%%%,,%%%%%%
%%%%,%%%%%%
%%%%,%%%%%%
%%%%%,%%%%%"));
    add_chunk(&mut v, AreaSpec { biome: Biome::Overland, depth: 0 }, parse_chunk(AreaSpec { biome: Biome::Overland, depth: 0 }, "\
%%%%%%%,%%%
%%%%%%,,%%%
%%%%,,,%%%%
,,,%%,,%%%%
%%,,%%,,%%%
%%%%,,,%%%%
%%%%,,%%%%%
%%%%,,%%,,,
%%%%%,,,,%%
%%%%%,,%%%%
%%%,,,%%%%%
%%%%,,%%%%%
%%%%,,%%%%%
%%%%,%%%%%%
%%%%,,%,,,,
%%%%%%,,%%%
,,%%%,,%%%%
%%,,,,%%%%%
%%%%,,%%%%%
%%%%%,,%%%%
%%%%%,,%%%%
%%%%%,%%%%%"));
    add_chunk(&mut v, AreaSpec { biome: Biome::Overland, depth: 0 }, parse_chunk(AreaSpec { biome: Biome::Overland, depth: 0 }, "\
%%%%%,,,%%%
%%,,,,,,,%%
%,,,%,,,,,%
,,,,,,%,,%%
,,,,,,,,,,%
%,,,,,,,,,%
%,,,%,,%,,,
%%o,,,,,,,,
%%,,,,,%,,,
%,,,,%,,,,%
%%,,,,,,,%%
%%,%,,,o,,%
%%,,,,,,,%%
%%%,,,,o%%%
%%%%%,,,,,,
%%%%%%%%%,%
,,,,%%%%,,%
%%%,%%%%,%%
%%%%,%%,,%%
%%%%%,,,%%%
%%%%%,%%%%%
%%%%%,%%%%%"));
    add_chunk(&mut v, AreaSpec { biome: Biome::Overland, depth: 0 }, parse_chunk(AreaSpec { biome: Biome::Overland, depth: 0 }, "\
%%%%%,,,%%%
%%%,,,,,,,%
%%,,,,,,,,%
,,,,%,%,,,%
,,,,,,,,,,%
,,,%,,,,,,%
%,,,o,,,,,,
%,,,,%,,,,,
%,%,,,,%,,%
%,,,,,o,,,%
%%,%,,,,%%%
%,,,,,,,o%%
%%o,,,,,,,%
%%,,,,,,,,,
%,,,%,,,,,,
%,,,,,,,,,%
,,,%,,,%,,%
,,,,,,,,,%%
%,,,,,,,,,%
%%o%,,,,,%%
%%%,,,,,%%%
%%%%,,,%%%%"));
    add_chunk(&mut v, AreaSpec { biome: Biome::Overland, depth: 0 }, parse_chunk(AreaSpec { biome: Biome::Overland, depth: 0 }, "\
%%%%%%%,%%%
%%%,,,,,%%%
%%,,%%%,%%%
,,,%%%%,,%%
%%,,%%,,,%%
%%%,,,,%%%%
%%,,,,,,,,%
%%,,,,,%%%,
%%%%%%%%%%%
%%%%%%%%%%%
%%%%%,,,%%%
%%%,,,,,%%%
%%%,,,,,,,%
%%,,..,,,,%
%%,A./..,,,
%,,..//.,,%
,,,.//.A,%%
%%,,./.,,%%
%,,,A,.,,%%
%%,,,,,,,%%
%%%,,,,,%%%
%%%%%,%%%%%"));
    add_chunk(&mut v, AreaSpec { biome: Biome::Overland, depth: 0 }, parse_chunk(AreaSpec { biome: Biome::Overland, depth: 0 }, "\
%%%%%%%,%%%
%%%%%,,,%%%
%%,,,,,,%%%
,,,,,,,%,,%
%%,,,,,%%,%
%/%,,,,,%%%
%%%%/%%,/%%
%%%%%%%,,,,
%%%%%%%,/%%
%%%%%,,,%%%
%///..//%%%
%/.A..../%%
%.A..A..,%%
%./.a../%,%
%%.A..A/%,,
%%...A,,%%%
,,,,,//%/%%
%%%,,%%%%%%
%%%%,%%/%%%
%%%%%,%%%%%
%%%%%,,%%%%
%%%%%,,%%%%"));
    add_chunk(&mut v, AreaSpec { biome: Biome::Overland, depth: 0 }, parse_chunk(AreaSpec { biome: Biome::Overland, depth: 0 }, "\
%%%%%%%,%%%
%%%%%%,,,%%
%%%%,,,,,%%
,,,,,,,,,%%
%%,,%%,,,%%
%%%%%,,,%%%
%%%%%%,,%,%
%%%%,,,,,,,
%%%%,%%,,,%
%%%%%%%,,%%
%%%%%%%,,%%
%%%%%,,,%%%
%%%%%,%%%%%
%%%%%,%%%%%
%%%%%,,,,,,
%%,,,,,,,,%
,,,,,,,%%%%
%%%,,,%%%%%
%%%%,,,%%%%
%%%%%,,,%%%
%%%%%,,%%%%
%%%%%,,%%%%"));
    add_chunk(&mut v, AreaSpec { biome: Biome::Overland, depth: 0 }, parse_chunk(AreaSpec { biome: Biome::Overland, depth: 0 }, "\
%%%%%%,,%%%
%%%%%%,,,%%
%%%%,,,,,%%
,,,,,,,,,%%
%%,,%%,,,%%
%%%%%,,,%%%
%%%%%%,,%,%
%%%o,,,,,,,
%%%~~%%,,,%
==%~~~o,,~%
=======~~~=
===========
~====~~~===
,,,~~~%%%%%
,%%%%,,,,,,
%%,,,,,,,,%
,,,,,,,%%%%
%%%,,,%%%%%
%%%%,,,%%%%
%%%%%,,,%%%
%%%%%,,%%%%
%%%%%,,%%%%"));
    add_chunk(&mut v, AreaSpec { biome: Biome::Overland, depth: 0 }, parse_chunk(AreaSpec { biome: Biome::Overland, depth: 0 }, "\
,,,,,,,,,,,
,========,,
,=#|#=#|#=,
,=|.###.|=,
,=#.+.+.#=,
,=###+###=,
,==#b.b#==,
,==#>.b#==,
,==|...|==,
,==##+##==,
,..+...+..,
,..+...+..,
,==##+##==,
,==|...|==,
,==#.T.#==,
,==#...#==,
,=###+###=,
,=#.+.+.#=,
,=|.###.|=,
,=#|#=#|#=,
,,========,
,,,,,,,,,,,"));
    add_chunk(&mut v, AreaSpec { biome: Biome::Overland, depth: 0 }, parse_chunk(AreaSpec { biome: Biome::Overland, depth: 0 }, "\
,,,,,,,,,,,
,,,,,,,,,,,
,,******,,,
,****..**,,
,*.*.....,,
,*.**!..*,,
,*.**..**,,
,*....***,,
,**I.III**,
,,**..****,
,**....!**,
,**.*.***,,
,***.**X*,,
,*...XXX*,,
,**...X**,,
,*##+#XX*,,
,*#....X**,
,*#..>X#**,
,**!..X#**,
,,**###***,
,,*******,,
,,,,,,,,,,,"));
    add_chunk(&mut v, AreaSpec { biome: Biome::Dungeon, depth: 0 }, parse_chunk(AreaSpec { biome: Biome::Dungeon, depth: 0 }, "\
#######.###
#######+###
##......###
.+......###
##......###
##g.....###
##......###
##g.....+..
##......###
###+#######
###.#######
###.#######
###.#######
###.#######
###........
#####.#####
......#####
#####.#####
#####.#####
#####.#####
#####.#####
#####.#####"));
    add_chunk(&mut v, AreaSpec { biome: Biome::Dungeon, depth: 0 }, parse_chunk(AreaSpec { biome: Biome::Dungeon, depth: 0 }, "\
#######.###
#######.###
#######.###
........###
#######.###
#######.###
#######.###
#######....
###########
###########
###########
###########
###########
###########
#####......
#####.#####
......#####
#####.#####
#####.#####
#####.#####
#####.#####
#####.#####"));
    add_chunk(&mut v, AreaSpec { biome: Biome::Dungeon, depth: 0 }, parse_chunk(AreaSpec { biome: Biome::Dungeon, depth: 0 }, "\
#######.###
#######.###
#######.###
........###
##.####.###
##.####.###
##.####.###
##.........
##.##.#####
##.#q#..#q#
##.#qq#..##
##.#qqq#..#
#q#.#qqq#.#
#qq#.####.#
#qqq#......
#####.#####
......#####
#####.#####
#####.#####
#####.#####
#####.#####
#####.#####"));
    add_chunk(&mut v, AreaSpec { biome: Biome::Dungeon, depth: 0 }, parse_chunk(AreaSpec { biome: Biome::Dungeon, depth: 0 }, "\
#######.###
#######+###
##.......##
.+...#...##
##..###..##
##...#...##
##.#...#.##
##.......+.
##.......##
##.#...#.##
##.......##
##.......##
##.#...#.##
##.......##
##.......+.
##.#...#.##
.+...#...##
##..###..##
##...#...##
##.......##
#####+#####
#####.#####"));
    add_chunk(&mut v, AreaSpec { biome: Biome::Dungeon, depth: 0 }, parse_chunk(AreaSpec { biome: Biome::Dungeon, depth: 0 }, "\
*******.***
****#...***
#####...#**
.......##**
##.....+..*
*..##..#..*
**..#++##**
**#|#......
**....!..**
**..!.....*
**..XX..!.*
**!.XXX..**
**...XX..**
**X......**
**XXXXX....
**.XXX...**
.......X.**
**..!..XX**
***....XX**
****..**XX*
*****.*XXX*
*****.*****"));
    add_chunk(&mut v, AreaSpec { biome: Biome::Dungeon, depth: 0 }, parse_chunk(AreaSpec { biome: Biome::Dungeon, depth: 0 }, "\
#######.###
#######.###
#######.###
........###
#.......###
#.......###
#.......###
#..........
###=====###
###=====###
###=====###
###=====###
###IIIII###
###.....###
###........
###.....###
........###
###.....###
###.....###
###.....###
#####.#####
#####.#####"));
    add_chunk(&mut v, AreaSpec { biome: Biome::Dungeon, depth: 0 }, parse_chunk(AreaSpec { biome: Biome::Dungeon, depth: 0 }, "\
#######.###
#.........#
#.........#
..........#
#.........#
#.........#
#.........#
#..........
#..#.#....#
#.........#
#..#.>.#..#
#.........#
#....#.#..#
#.........#
#..........
#.........#
..........#
#.........#
#.........#
#.........#
#.........#
#####.#####"));
    v
}

} // verus!
