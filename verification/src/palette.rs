//! A fixed palette of reference colours with their tiles, and nearest-colour lookup.

use crate::image::{Image, Rgba, TranscodeError, MAX_DIM};
use crate::resize::{resample_to, resampled, ResizeAlgorithm};
use vstd::prelude::*;

verus! {

/// The absolute difference of two channel values.
pub open spec fn channel_distance(a: u8, b: u8) -> nat {
    if a >= b {
        (a - b) as nat
    } else {
        (b - a) as nat
    }
}

/// The L1 distance of two colours: the channel distances of red, green and
/// blue, and of alpha too when `alpha_aware` is set.
pub open spec fn color_distance(p: Rgba, q: Rgba, alpha_aware: bool) -> nat {
    let alpha = if alpha_aware {
        channel_distance(p.a, q.a)
    } else {
        0
    };
    channel_distance(p.r, q.r) + channel_distance(p.g, q.g) + channel_distance(p.b, q.b) + alpha
}

/// `i` is the first position in `keys` whose colour is nearest to `color`.
pub open spec fn is_nearest(keys: Seq<Rgba>, color: Rgba, alpha_aware: bool, i: int) -> bool {
    &&& 0 <= i < keys.len()
    &&& forall|j: int|
        0 <= j < keys.len() ==> color_distance(keys[i], color, alpha_aware) <= color_distance(
            #[trigger] keys[j],
            color,
            alpha_aware,
        )
    &&& forall|j: int|
        0 <= j < i ==> color_distance(#[trigger] keys[j], color, alpha_aware) > color_distance(
            keys[i],
            color,
            alpha_aware,
        )
}

/// The first position in `keys` whose colour is nearest to `color`.
pub open spec fn nearest_position(keys: Seq<Rgba>, color: Rgba, alpha_aware: bool) -> int {
    choose|i: int| is_nearest(keys, color, alpha_aware, i)
}

/// There is exactly one first-nearest position.
pub proof fn lemma_nearest_unique(
    keys: Seq<Rgba>,
    color: Rgba,
    alpha_aware: bool,
    i: int,
    j: int,
)
    requires
        is_nearest(keys, color, alpha_aware, i),
        is_nearest(keys, color, alpha_aware, j),
    ensures
        i == j,
{
    if i < j {
        assert(color_distance(keys[i], color, alpha_aware) > color_distance(
            keys[j],
            color,
            alpha_aware,
        ));
        assert(color_distance(keys[j], color, alpha_aware) <= color_distance(
            keys[i],
            color,
            alpha_aware,
        ));
    } else if j < i {
        assert(color_distance(keys[j], color, alpha_aware) > color_distance(
            keys[i],
            color,
            alpha_aware,
        ));
        assert(color_distance(keys[i], color, alpha_aware) <= color_distance(
            keys[j],
            color,
            alpha_aware,
        ));
    }
}

/// Looking up the exact colour of an entry finds an entry at distance zero;
/// with alpha-aware matching over pairwise distinct keys it finds that very
/// entry.
pub proof fn lemma_exact_color_matches(
    keys: Seq<Rgba>,
    alpha_aware: bool,
    k: int,
    found: int,
)
    requires
        0 <= k < keys.len(),
        is_nearest(keys, keys[k], alpha_aware, found),
    ensures
        color_distance(keys[found], keys[k], alpha_aware) == 0,
        (alpha_aware && keys_distinct(keys)) ==> found == k,
{
    assert(color_distance(keys[k], keys[k], alpha_aware) == 0);
    assert(color_distance(keys[found], keys[k], alpha_aware) <= color_distance(
        keys[k],
        keys[k],
        alpha_aware,
    ));
    if alpha_aware && keys_distinct(keys) {
        lemma_zero_distance_is_equality(keys[found], keys[k]);
    }
}

/// Two colours at alpha-aware distance zero are the same colour.
pub proof fn lemma_zero_distance_is_equality(p: Rgba, q: Rgba)
    ensures
        color_distance(p, q, true) == 0 <==> p == q,
{
}

/// No colour occurs twice among `keys`.
pub open spec fn keys_distinct(keys: Seq<Rgba>) -> bool {
    forall|i: int, j: int|
        0 <= i < keys.len() && 0 <= j < keys.len() && i != j ==> #[trigger] keys[i]
            != #[trigger] keys[j]
}

/// The absolute difference of two channel values.
pub fn channel_diff(a: u8, b: u8) -> (d: u32)
    ensures
        d == channel_distance(a, b),
        d <= 255,
{
    if a >= b {
        (a - b) as u32
    } else {
        (b - a) as u32
    }
}

/// The L1 distance of two colours.
pub fn distance(p: Rgba, q: Rgba, alpha_aware: bool) -> (d: u32)
    ensures
        d == color_distance(p, q, alpha_aware),
        d <= 1020,
{
    let rgb = channel_diff(p.r, q.r) + channel_diff(p.g, q.g) + channel_diff(p.b, q.b);
    if alpha_aware {
        rgb + channel_diff(p.a, q.a)
    } else {
        rgb
    }
}

/// The first position in `keys` whose colour is nearest to `color`.
///
/// Fails with `EmptyPalette` exactly when `keys` is empty.
pub fn nearest_index(keys: &Vec<Rgba>, color: Rgba, alpha_aware: bool) -> (res: Result<
    usize,
    TranscodeError,
>)
    ensures
        res is Err <==> keys@.len() == 0,
        res matches Err(e) ==> e == TranscodeError::EmptyPalette,
        res matches Ok(i) ==> is_nearest(keys@, color, alpha_aware, i as int) && i
            == nearest_position(keys@, color, alpha_aware),
{
    if keys.len() == 0 {
        return Err(TranscodeError::EmptyPalette);
    }
    let mut best: usize = 0;
    let mut best_distance: u32 = distance(keys[0], color, alpha_aware);
    let mut j: usize = 1;
    while j < keys.len()
        invariant
            1 <= j <= keys@.len(),
            0 <= best < j,
            best_distance == color_distance(keys@[best as int], color, alpha_aware),
            forall|k: int|
                0 <= k < j ==> best_distance <= color_distance(
                    #[trigger] keys@[k],
                    color,
                    alpha_aware,
                ),
            forall|k: int|
                0 <= k < best ==> color_distance(#[trigger] keys@[k], color, alpha_aware)
                    > best_distance,
        decreases keys@.len() - j,
    {
        let d = distance(keys[j], color, alpha_aware);
        if d < best_distance {
            best = j;
            best_distance = d;
        }
        j = j + 1;
    }
    proof {
        lemma_nearest_unique(
            keys@,
            color,
            alpha_aware,
            best as int,
            nearest_position(keys@, color, alpha_aware),
        );
    }
    Ok(best)
}

/// An immutable set of reference colours, each with a square tile of one
/// common side length, in the order in which the colours were first added.
/// The order is part of the value: among equally near colours the first
/// added wins, so the entries are kept as a sequence without repeated keys.
#[derive(Clone, Debug)]
pub struct Palette {
    pub cell: u32,
    pub keys: Vec<Rgba>,
    pub tiles: Vec<Image>,
}

/// The side length of the tiles of a block palette.
pub const BLOCK_SIZE: u32 = 20;

impl Palette {
    /// Every key has one tile, every tile is a `cell` by `cell` image, and no
    /// key occurs twice.
    pub open spec fn wf(&self) -> bool {
        &&& 1 <= self.cell <= MAX_DIM
        &&& self.keys@.len() == self.tiles@.len()
        &&& keys_distinct(self.keys@)
        &&& forall|i: int|
            0 <= i < self.tiles@.len() ==> self.is_tile(#[trigger] self.tiles@[i])
    }

    /// `tile` is a well-formed image of the palette's tile size.
    pub open spec fn is_tile(&self, tile: Image) -> bool {
        tile.wf() && tile.width == self.cell && tile.height == self.cell
    }

    /// The position of `key` among the palette's keys, if it is there.
    pub open spec fn spec_position(keys: Seq<Rgba>, key: Rgba) -> Option<int> {
        if exists|i: int| 0 <= i < keys.len() && keys[i] == key {
            Some(choose|i: int| 0 <= i < keys.len() && keys[i] == key)
        } else {
            None
        }
    }

    /// An empty palette for tiles of side `cell`.
    ///
    /// Fails with `InvalidInput` exactly when `cell` is zero or exceeds the
    /// dimension bound.
    pub fn new(cell: u32) -> (res: Result<Palette, TranscodeError>)
        ensures
            res is Err <==> (cell == 0 || cell > MAX_DIM),
            res matches Err(e) ==> e == TranscodeError::InvalidInput,
            res matches Ok(p) ==> p.wf() && p.cell == cell && p.keys@.len() == 0,
    {
        if cell == 0 || cell > MAX_DIM {
            return Err(TranscodeError::InvalidInput);
        }
        Ok(Palette { cell, keys: Vec::new(), tiles: Vec::new() })
    }

    /// The number of entries.
    pub fn len(&self) -> (n: usize)
        ensures
            n == self.keys@.len(),
    {
        self.keys.len()
    }

    /// Whether the palette holds no entry.
    pub fn is_empty(&self) -> (b: bool)
        ensures
            b == (self.keys@.len() == 0),
    {
        self.keys.len() == 0
    }

    /// The position of `key` among the keys, if it is there.
    pub fn position(&self, key: Rgba) -> (res: Option<usize>)
        ensures
            res matches Some(i) ==> i < self.keys@.len() && self.keys@[i as int] == key,
            res is None ==> forall|i: int| 0 <= i < self.keys@.len() ==> self.keys@[i] != key,
    {
        let mut i: usize = 0;
        while i < self.keys.len()
            invariant
                i <= self.keys@.len(),
                forall|k: int| 0 <= k < i ==> self.keys@[k] != key,
            decreases self.keys@.len() - i,
        {
            if self.keys[i] == key {
                return Some(i);
            }
            i = i + 1;
        }
        None
    }

    /// Associates `tile` with `key`. A key that is already present keeps its
    /// place and gets the new tile; a new key goes to the end.
    ///
    /// Fails with `InvalidInput`, leaving the palette as it was, exactly when
    /// `tile` is not of the palette's tile size.
    pub fn insert(&mut self, key: Rgba, tile: Image) -> (res: Result<(), TranscodeError>)
        requires
            old(self).wf(),
            tile.wf(),
        ensures
            final(self).wf(),
            final(self).cell == old(self).cell,
            res is Err <==> !old(self).is_tile(tile),
            res matches Err(e) ==> e == TranscodeError::InvalidInput && *final(self) == *old(self),
            res is Ok ==> ({
                let keys = old(self).keys@;
                let tiles = old(self).tiles@;
                match Self::spec_position(keys, key) {
                    Some(i) => final(self).keys@ == keys && final(self).tiles@ == tiles.update(
                        i,
                        tile,
                    ),
                    None => final(self).keys@ == keys.push(key) && final(self).tiles@
                        == tiles.push(tile),
                }
            }),
    {
        if tile.width != self.cell || tile.height != self.cell {
            return Err(TranscodeError::InvalidInput);
        }
        match self.position(key) {
            Some(i) => {
                proof {
                    let w = choose|w: int| 0 <= w < self.keys@.len() && self.keys@[w] == key;
                    assert(self.keys@[i as int] == key);
                    assert(w == i);
                }
                self.tiles.set(i, tile);
            },
            None => {
                self.keys.push(key);
                self.tiles.push(tile);
            },
        }
        Ok(())
    }

    /// Adds a texture: its key is the texture downsampled to one pixel, its
    /// tile the texture resampled to the palette's tile size, both bilinear.
    ///
    /// Fails with `InvalidInput`, leaving the palette as it was, exactly when
    /// the texture has a zero side.
    pub fn add_texture(&mut self, texture: &Image) -> (res: Result<(), TranscodeError>)
        requires
            old(self).wf(),
            texture.wf(),
        ensures
            final(self).wf(),
            final(self).cell == old(self).cell,
            res is Err <==> (texture.width == 0 || texture.height == 0),
            res matches Err(e) ==> e == TranscodeError::InvalidInput && *final(self) == *old(self),
            res is Ok ==> ({
                let key = texture_key(texture@);
                let cell = old(self).cell as nat;
                let tile = resampled(texture@, cell, cell, ResizeAlgorithm::Bilinear);
                let keys = old(self).keys@;
                let tiles = old(self).tiles@;
                let new_tiles = final(self).tiles@;
                match Self::spec_position(keys, key) {
                    Some(i) => {
                        &&& final(self).keys@ == keys
                        &&& new_tiles.len() == tiles.len()
                        &&& new_tiles[i].pixels@ == tile
                        &&& forall|j: int|
                            0 <= j < tiles.len() && j != i ==> new_tiles[j] == tiles[j]
                    },
                    None => {
                        &&& final(self).keys@ == keys.push(key)
                        &&& new_tiles.len() == tiles.len() + 1
                        &&& new_tiles.last().pixels@ == tile
                        &&& forall|j: int| 0 <= j < tiles.len() ==> new_tiles[j] == tiles[j]
                    },
                }
            }),
    {
        let single = match resample_to(texture, 1, 1, ResizeAlgorithm::Bilinear) {
            Ok(img) => img,
            Err(e) => {
                return Err(e);
            },
        };
        let tile = match resample_to(texture, self.cell, self.cell, ResizeAlgorithm::Bilinear) {
            Ok(img) => img,
            Err(e) => {
                return Err(e);
            },
        };
        let key = single.pixels[0];
        self.insert(key, tile)
    }
}

/// Looks up the palette entry nearest to `color`: the position of the first
/// entry whose key has the least L1 distance to it.
///
/// Fails with `EmptyPalette` exactly when the palette holds no entry.
pub fn match_palette(palette: &Palette, color: Rgba, alpha_aware: bool) -> (res: Result<
    usize,
    TranscodeError,
>)
    ensures
        res is Err <==> palette.keys@.len() == 0,
        res matches Err(e) ==> e == TranscodeError::EmptyPalette,
        res matches Ok(i) ==> is_nearest(palette.keys@, color, alpha_aware, i as int) && i
            == nearest_position(palette.keys@, color, alpha_aware),
{
    nearest_index(&palette.keys, color, alpha_aware)
}

/// The colour key of a texture: its single pixel after bilinear downsampling
/// to one by one.
pub open spec fn texture_key(texture: crate::image::Raster) -> Rgba {
    resampled(texture, 1, 1, ResizeAlgorithm::Bilinear)[0]
}

} // verus!
