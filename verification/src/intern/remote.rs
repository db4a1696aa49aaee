//! The requests that fetch cutouts from a BossDB service, and what to make
//! of the answers.
//!
//! A cutout is asked for by URL and comes back as the compressed voxels of
//! the cutout in Z-major order. Sending the request and decompressing the
//! answer are the caller's; the URL, the authorization and the shape of the
//! answer are decided here.
use vstd::prelude::*;
use vstd::string::StringExecFns;
use crate::data_manager::channel_of;
use crate::data_manager::channel_text;
use crate::text::decimal_digits;
use crate::text::nth_piece;
use crate::text::piece;
use crate::text::push_decimal;
use crate::volume::shape_fits;
use crate::volume::Volume;

verus! {

/// What separates collection, experiment and channel.
pub open spec fn slash() -> Seq<char> {
    seq!['/']
}

/// Collection, experiment and channel of an identifier such as
/// `bossdb://collection/experiment/channel`: the first three pieces of the
/// channel path. `None` when the identifier has no scheme or fewer pieces.
pub open spec fn bossdb_parts(uri: Seq<char>) -> Option<(Seq<char>, Seq<char>, Seq<char>)> {
    match channel_text(uri) {
        None => None,
        Some(path) => match (piece(path, slash(), 0), piece(path, slash(), 1), piece(
            path,
            slash(),
            2,
        )) {
            (Some(collection), Some(experiment), Some(channel)) => Some(
                (collection, experiment, channel),
            ),
            _ => None,
        },
    }
}

/// Parses a channel identifier into collection, experiment and channel.
pub fn parse_bossdb_uri(boss_uri: &str) -> (r: Option<(String, String, String)>)
    ensures
        match r {
            Some((collection, experiment, channel)) => bossdb_parts(boss_uri@) == Some(
                (collection@, experiment@, channel@),
            ),
            None => bossdb_parts(boss_uri@).is_none(),
        },
{
    proof {
        reveal_strlit("/");
    }
    assert("/"@ =~= slash());
    let path = match channel_of(boss_uri) {
        None => {
            return None;
        },
        Some(path) => path,
    };
    let collection = nth_piece(path.as_str(), "/", 0);
    let experiment = nth_piece(path.as_str(), "/", 1);
    let channel = nth_piece(path.as_str(), "/", 2);
    match (collection, experiment, channel) {
        (Some(collection), Some(experiment), Some(channel)) => Some(
            (collection, experiment, channel),
        ),
        _ => None,
    }
}

/// The URL of an endpoint: `<protocol>://<host>/v1/<suffix>/`.
pub open spec fn url_text(protocol: Seq<char>, host: Seq<char>, suffix: Seq<char>) -> Seq<char> {
    protocol + "://"@ + host + "/v1/"@ + suffix + "/"@
}

/// A pair of bounds as it stands in a URL: `<start>:<stop>`.
pub open spec fn extents_text(bounds: (u64, u64)) -> Seq<char> {
    decimal_digits(bounds.0 as nat) + ":"@ + decimal_digits(bounds.1 as nat)
}

/// The endpoint of a cutout:
/// `cutout/<collection>/<experiment>/<channel>/<resolution>/<xs>/<ys>/<zs>`.
pub open spec fn cutout_suffix(
    parts: (Seq<char>, Seq<char>, Seq<char>),
    res: u8,
    xs: (u64, u64),
    ys: (u64, u64),
    zs: (u64, u64),
) -> Seq<char> {
    "cutout/"@ + parts.0 + "/"@ + parts.1 + "/"@ + parts.2 + "/"@ + decimal_digits(res as nat)
        + "/"@ + extents_text(xs) + "/"@ + extents_text(ys) + "/"@ + extents_text(zs)
}

/// Whether a cutout with these bounds can be held: no stop lies before its
/// start, and an array of its shape can be allocated.
pub open spec fn cutout_fits(xs: (u64, u64), ys: (u64, u64), zs: (u64, u64)) -> bool {
    &&& xs.0 <= xs.1 && xs.1 - xs.0 <= usize::MAX
    &&& ys.0 <= ys.1 && ys.1 - ys.0 <= usize::MAX
    &&& zs.0 <= zs.1 && zs.1 - zs.0 <= usize::MAX
    &&& shape_fits(zs.1 - zs.0, ys.1 - ys.0, xs.1 - xs.0)
}

/// Appends `<start>:<stop>` to `out`.
fn push_extents(out: &mut String, bounds: (u64, u64))
    ensures
        final(out)@ == old(out)@ + extents_text(bounds),
{
    push_decimal(out, bounds.0);
    out.append(":");
    push_decimal(out, bounds.1);
    assert(final(out)@ =~= old(out)@ + extents_text(bounds));
}

/// A remote BossDB-like service, with the token to present to it.
pub struct BossRemote {
    protocol: String,
    host: String,
    token: String,
}

impl BossRemote {
    pub closed spec fn protocol(&self) -> Seq<char> {
        self.protocol@
    }

    pub closed spec fn host(&self) -> Seq<char> {
        self.host@
    }

    pub closed spec fn token(&self) -> Seq<char> {
        self.token@
    }

    /// The service at `host`, spoken to over `protocol`, with `token`.
    pub fn new(protocol: String, host: String, token: String) -> (r: BossRemote)
        ensures
            r.protocol() == protocol@,
            r.host() == host@,
            r.token() == token@,
    {
        BossRemote { protocol, host, token }
    }

    /// The URL of the endpoint `suffix`.
    pub fn build_url(&self, suffix: &str) -> (r: String)
        ensures
            r@ == url_text(self.protocol(), self.host(), suffix@),
    {
        let mut r = self.protocol.clone();
        r.append("://");
        r.append(self.host.as_str());
        r.append("/v1/");
        r.append(suffix);
        r.append("/");
        assert(r@ =~= url_text(self.protocol(), self.host(), suffix@));
        r
    }

    /// The value of the `Authorization` header: `token <token>`.
    pub fn authorization(&self) -> (r: String)
        ensures
            r@ == "token "@ + self.token(),
    {
        let mut r = String::from_str("token ");
        r.append(self.token.as_str());
        r
    }

    /// The URL that asks for the cutout with the given bounds of the channel
    /// `boss_uri` at resolution `res`; `None` when `boss_uri` does not name
    /// collection, experiment and channel.
    pub fn cutout_url(
        &self,
        boss_uri: &str,
        res: u8,
        xs: (u64, u64),
        ys: (u64, u64),
        zs: (u64, u64),
    ) -> (r: Option<String>)
        ensures
            match r {
                Some(url) => bossdb_parts(boss_uri@) is Some && url@ == url_text(
                    self.protocol(),
                    self.host(),
                    cutout_suffix(bossdb_parts(boss_uri@).unwrap(), res, xs, ys, zs),
                ),
                None => bossdb_parts(boss_uri@).is_none(),
            },
    {
        let (collection, experiment, channel) = match parse_bossdb_uri(boss_uri) {
            None => {
                return None;
            },
            Some(parts) => parts,
        };
        let mut suffix = String::from_str("cutout/");
        suffix.append(collection.as_str());
        suffix.append("/");
        suffix.append(experiment.as_str());
        suffix.append("/");
        suffix.append(channel.as_str());
        suffix.append("/");
        push_decimal(&mut suffix, res as u64);
        suffix.append("/");
        push_extents(&mut suffix, xs);
        suffix.append("/");
        push_extents(&mut suffix, ys);
        suffix.append("/");
        push_extents(&mut suffix, zs);
        assert(suffix@ =~= cutout_suffix(
            (collection@, experiment@, channel@),
            res,
            xs,
            ys,
            zs,
        ));
        Some(self.build_url(suffix.as_str()))
    }
}

/// The cutout that a service delivered: `voxels`, once decompressed, in
/// Z-major order, for the given bounds. `None` when the bounds admit no
/// cutout or the voxels are not as many as the bounds say.
pub fn cutout_volume(voxels: Vec<u8>, xs: (u64, u64), ys: (u64, u64), zs: (u64, u64)) -> (r:
    Option<Volume>)
    ensures
        r.is_some() <==> cutout_fits(xs, ys, zs) && voxels@.len() == (zs.1 - zs.0) * (ys.1 - ys.0)
            * (xs.1 - xs.0),
        r.is_some() ==> r.unwrap().holds(zs.1 - zs.0, ys.1 - ys.0, xs.1 - xs.0, voxels@),
{
    if xs.1 < xs.0 || ys.1 < ys.0 || zs.1 < zs.0 {
        return None;
    }
    let limit: u64 = usize::MAX as u64;
    if xs.1 - xs.0 > limit || ys.1 - ys.0 > limit || zs.1 - zs.0 > limit {
        return None;
    }
    Volume::from_shape_vec(
        (zs.1 - zs.0) as usize,
        (ys.1 - ys.0) as usize,
        (xs.1 - xs.0) as usize,
        voxels,
    )
}

} // verus!
