//! Management operations, composed directly from the registries: add,
//! get, update and list for applications; generate, get, update and list
//! for keys. Add fails on a duplicate slug; generation requires an
//! existing, active application; updates are field-level merges — only a
//! field explicitly supplied overwrites the stored one. Nothing is ever
//! deleted.

use vstd::prelude::*;
use vstd::string::*;
use crate::errors::CoreError;
use crate::model::{slug_of, valid_key_id, Application, RpcKey, RpcKeyView};
use crate::registry::{rk_name, AppStorage, RpcKeyStorage};

verus! {

/// The slug an add request denotes: the given one, else the slugified
/// name.
pub open spec fn chosen_slug(name: Seq<char>, slug: Option<Seq<char>>) -> Seq<char> {
    match slug {
        Option::Some(s) => s,
        Option::None => slug_of(name),
    }
}

/// Registers a new application. Uniqueness: when an application with the
/// same slug already exists, the call fails with `ValidationError` and
/// the registry — the existing record included — is left unmodified.
pub fn add_application(
    apps: &mut AppStorage,
    name: &str,
    slug: Option<String>,
    path: String,
    url: String,
    strip: bool,
) -> (r: Result<Application, CoreError>)
    requires
        old(apps).wf(),
    ensures
        final(apps).wf(),
        ({
            let chosen = chosen_slug(name@, slug.deep_view());
            &&& (old(apps).records().contains_key(chosen) ==> r == Err::<
                Application,
                CoreError,
            >(CoreError::ValidationError) && final(apps).records() == old(apps).records())
            &&& (!old(apps).records().contains_key(chosen) ==> (r matches Ok(a) && a@.slug
                == chosen && a@.name == name@ && a@.proxy.path == path@ && a@.proxy.url == url@
                && a@.proxy.strip == strip && a@.active) && final(apps).records()
                =~= old(apps).records().insert(chosen, r->Ok_0@))
        }),
{
    let doc = Application::new(name, slug, path, url, strip);
    match apps.get(doc.slug.as_str()) {
        Some(_) => Err(CoreError::ValidationError),
        None => {
            let _ = apps.set(doc.slug.as_str(), &doc);
            Ok(doc)
        },
    }
}

/// Looks an application up by slug; `NotFoundError` when no record is
/// there.
pub fn get_application(apps: &AppStorage, slug: &str) -> (r: Result<Application, CoreError>)
    requires
        apps.wf(),
    ensures
        (r matches Ok(a) ==> apps.records().contains_key(slug@) && apps.records()[slug@] == a@),
        (r is Err <==> !apps.records().contains_key(slug@)),
        (r is Err ==> r == Err::<Application, CoreError>(CoreError::NotFoundError)),
{
    match apps.get(slug) {
        Some(a) => Ok(a),
        None => Err(CoreError::NotFoundError),
    }
}

/// The application after an update request: each field explicitly
/// supplied overwrites the stored one.
pub open spec fn spec_update_app(
    a: crate::model::ApplicationView,
    active: Option<bool>,
    path: Option<Seq<char>>,
    url: Option<Seq<char>>,
    strip: Option<bool>,
) -> crate::model::ApplicationView {
    crate::model::ApplicationView {
        name: a.name,
        slug: a.slug,
        proxy: crate::model::ProxyEndpointView {
            path: match path {
                Option::Some(p) => p,
                Option::None => a.proxy.path,
            },
            url: match url {
                Option::Some(u) => u,
                Option::None => a.proxy.url,
            },
            strip: match strip {
                Option::Some(s) => s,
                Option::None => a.proxy.strip,
            },
        },
        active: match active {
            Option::Some(x) => x,
            Option::None => a.active,
        },
    }
}

/// Updates an application's mutable fields in place; the slug never
/// changes. `NotFoundError` when no record is there, and nothing is
/// mutated then.
pub fn update_application(
    apps: &mut AppStorage,
    slug: &str,
    active: Option<bool>,
    path: Option<String>,
    url: Option<String>,
    strip: Option<bool>,
) -> (r: Result<Application, CoreError>)
    requires
        old(apps).wf(),
    ensures
        final(apps).wf(),
        (!old(apps).records().contains_key(slug@) ==> r == Err::<Application, CoreError>(
            CoreError::NotFoundError,
        ) && final(apps).records() == old(apps).records()),
        (old(apps).records().contains_key(slug@) ==> (r matches Ok(a) && a@ == spec_update_app(
            old(apps).records()[slug@],
            active,
            path.deep_view(),
            url.deep_view(),
            strip,
        )) && final(apps).records() =~= old(apps).records().insert(slug@, r->Ok_0@)),
{
    let mut doc = match apps.get(slug) {
        Some(a) => a,
        None => {
            return Err(CoreError::NotFoundError);
        },
    };
    if let Some(x) = active {
        doc.active = x;
    }
    if let Some(p) = path {
        doc.proxy.path = p;
    }
    if let Some(u) = url {
        doc.proxy.url = u;
    }
    if let Some(s) = strip {
        doc.proxy.strip = s;
    }
    let _ = apps.set(slug, &doc);
    Ok(doc)
}

/// Generates and stores a fresh key for `app`. The owning application
/// must exist (`NotFoundError` otherwise) and be active
/// (`ValidationError` otherwise); on either failure nothing is mutated.
pub fn gen_key(
    apps: &AppStorage,
    keys: &mut RpcKeyStorage,
    app: &str,
    tag: Vec<String>,
    expires: Option<u64>,
    quota_second: Option<u64>,
    quota_minute: Option<u64>,
    quota_hour: Option<u64>,
    quota_day: Option<u64>,
    quota_week: Option<u64>,
    quota_month: Option<u64>,
    quota_year: Option<u64>,
) -> (r: Result<RpcKey, CoreError>)
    requires
        apps.wf(),
        old(keys).wf(),
    ensures
        final(keys).wf(),
        (!apps.records().contains_key(app@) ==> r == Err::<RpcKey, CoreError>(
            CoreError::NotFoundError,
        ) && final(keys).records() == old(keys).records()),
        (apps.records().contains_key(app@) && !apps.records()[app@].active ==> r == Err::<
            RpcKey,
            CoreError,
        >(CoreError::ValidationError) && final(keys).records() == old(keys).records()),
        (apps.records().contains_key(app@) && apps.records()[app@].active ==> (r matches Ok(k)
            && k@.app == app@ && k@.key_id.len() == 32 && valid_key_id(k@.key_id) && k@.tags
            == tag.deep_view() && (expires matches Some(x) ==> k@.expires == x) && (expires
            is None ==> exists|t: u64| k@.expires == crate::model::default_expiry(t)) && k@.active
            && k@.quota_second == quota_second && k@.quota_minute == quota_minute && k@.quota_hour
            == quota_hour && k@.quota_day == quota_day && k@.quota_week == quota_week
            && k@.quota_month == quota_month && k@.quota_year == quota_year)
            && final(keys).records() =~= old(keys).records().insert(
            rk_name(app@, r->Ok_0@.key_id),
            r->Ok_0@,
        )),
{
    let a = match apps.get(app) {
        Some(x) => x,
        None => {
            return Err(CoreError::NotFoundError);
        },
    };
    if !a.active {
        return Err(CoreError::ValidationError);
    }
    let k = RpcKey::generate(
        app.to_owned(),
        tag,
        expires,
        quota_second,
        quota_minute,
        quota_hour,
        quota_day,
        quota_week,
        quota_month,
        quota_year,
    );
    let id = k.key_id.clone();
    let _ = keys.set(app, id.as_str(), &k);
    Ok(k)
}

/// Looks a key up under `(app, key)`. The application must exist and the
/// record must be there; either absence is `NotFoundError`.
pub fn get_key(apps: &AppStorage, keys: &RpcKeyStorage, app: &str, key: &str) -> (r: Result<
    RpcKey,
    CoreError,
>)
    requires
        apps.wf(),
        keys.wf(),
    ensures
        (r matches Ok(k) ==> apps.records().contains_key(app@) && keys.records().contains_key(
            rk_name(app@, key@),
        ) && keys.records()[rk_name(app@, key@)] == k@),
        (r is Err <==> !apps.records().contains_key(app@) || !keys.records().contains_key(
            rk_name(app@, key@),
        )),
        (r is Err ==> r == Err::<RpcKey, CoreError>(CoreError::NotFoundError)),
{
    if apps.get(app).is_none() {
        return Err(CoreError::NotFoundError);
    }
    match keys.get(app, key) {
        Some(k) => Ok(k),
        None => Err(CoreError::NotFoundError),
    }
}

/// `tags` with every occurrence of `ex` removed.
pub open spec fn remove_tag(tags: Seq<Seq<char>>, ex: Seq<char>) -> Seq<Seq<char>>
    decreases tags.len(),
{
    if tags.len() == 0 {
        Seq::empty()
    } else {
        let rest = remove_tag(tags.drop_first(), ex);
        if tags.first() == ex {
            rest
        } else {
            seq![tags.first()] + rest
        }
    }
}

/// The tag set after the update arguments are applied in order: an
/// argument starting with `-` removes the remainder from the set; any
/// other argument is appended, without deduplication.
pub open spec fn merge_tags(tags: Seq<Seq<char>>, args: Seq<Seq<char>>) -> Seq<Seq<char>>
    decreases args.len(),
{
    if args.len() == 0 {
        tags
    } else {
        let a = args.first();
        let next = if a.len() >= 1 && a[0] == '-' {
            remove_tag(tags, a.skip(1))
        } else {
            tags.push(a)
        };
        merge_tags(next, args.drop_first())
    }
}

/// The members of `tags` from index `i` on that differ from `ex`.
fn remove_tag_exec(tags: &Vec<String>, i: usize, ex: &str) -> (r: Vec<String>)
    requires
        i <= tags@.len(),
    ensures
        r.deep_view() == remove_tag(tags.deep_view().skip(i as int), ex@),
    decreases tags@.len() - i,
{
    let n = tags.len();
    if i == n {
        let r: Vec<String> = Vec::new();
        proof {
            assert(r.deep_view() =~= Seq::<Seq<char>>::empty());
            assert(tags.deep_view().skip(i as int) =~= Seq::<Seq<char>>::empty());
        }
        return r;
    }
    let ghost suf = tags.deep_view().skip(i as int);
    proof {
        assert(suf.first() == tags.deep_view()[i as int]);
        assert(suf.drop_first() =~= tags.deep_view().skip(i + 1));
    }
    let rest = remove_tag_exec(tags, i + 1, ex);
    if crate::store::str_eq(tags[i].as_str(), ex) {
        rest
    } else {
        let ghost old_rest = rest.deep_view();
        let mut out = rest;
        out.insert(0, tags[i].clone());
        proof {
            assert(out.deep_view() =~= seq![tags.deep_view()[i as int]] + old_rest);
        }
        out
    }
}

/// Applies the update arguments from index `i` on to the tag set.
fn apply_tag_args(tags: Vec<String>, args: &Vec<String>, i: usize) -> (r: Vec<String>)
    requires
        i <= args@.len(),
    ensures
        r.deep_view() == merge_tags(tags.deep_view(), args.deep_view().skip(i as int)),
    decreases args@.len() - i,
{
    let n = args.len();
    if i == n {
        proof {
            assert(args.deep_view().skip(i as int) =~= Seq::<Seq<char>>::empty());
        }
        return tags;
    }
    let ghost suf = args.deep_view().skip(i as int);
    proof {
        assert(suf.first() == args.deep_view()[i as int]);
        assert(suf.drop_first() =~= args.deep_view().skip(i + 1));
    }
    let a = args[i].as_str();
    let a_len = a.unicode_len();
    let next = if a_len >= 1 && a.get_char(0) == '-' {
        let ex = a.substring_char(1, a_len);
        proof {
            assert(ex@ =~= args.deep_view()[i as int].skip(1));
            assert(tags.deep_view().skip(0) =~= tags.deep_view());
        }
        remove_tag_exec(&tags, 0, ex)
    } else {
        let ghost old_tags = tags.deep_view();
        let mut t = tags;
        t.push(args[i].clone());
        proof {
            assert(t.deep_view() =~= old_tags.push(args.deep_view()[i as int]));
        }
        t
    };
    apply_tag_args(next, args, i + 1)
}

/// The key after an update request: each field explicitly supplied
/// overwrites the stored one — a quota never reverts to "unbounded" this
/// way — and the tag arguments are merged in order.
pub open spec fn spec_update_key(
    k: RpcKeyView,
    expires: Option<u64>,
    active: Option<bool>,
    tag_args: Seq<Seq<char>>,
    quota_second: Option<u64>,
    quota_minute: Option<u64>,
    quota_hour: Option<u64>,
    quota_day: Option<u64>,
    quota_week: Option<u64>,
    quota_month: Option<u64>,
    quota_year: Option<u64>,
) -> RpcKeyView {
    RpcKeyView {
        tags: merge_tags(k.tags, tag_args),
        expires: match expires {
            Option::Some(x) => x,
            Option::None => k.expires,
        },
        active: match active {
            Option::Some(x) => x,
            Option::None => k.active,
        },
        quota_second: match quota_second {
            Option::Some(x) => Option::Some(x),
            Option::None => k.quota_second,
        },
        quota_minute: match quota_minute {
            Option::Some(x) => Option::Some(x),
            Option::None => k.quota_minute,
        },
        quota_hour: match quota_hour {
            Option::Some(x) => Option::Some(x),
            Option::None => k.quota_hour,
        },
        quota_day: match quota_day {
            Option::Some(x) => Option::Some(x),
            Option::None => k.quota_day,
        },
        quota_week: match quota_week {
            Option::Some(x) => Option::Some(x),
            Option::None => k.quota_week,
        },
        quota_month: match quota_month {
            Option::Some(x) => Option::Some(x),
            Option::None => k.quota_month,
        },
        quota_year: match quota_year {
            Option::Some(x) => Option::Some(x),
            Option::None => k.quota_year,
        },
        ..k
    }
}

/// Updates a key in place under `(app, key)`: a field-level merge of the
/// supplied values into the stored record. Tag merge: an argument
/// starting with `-` removes the remainder from the tag set, any other
/// argument is appended. `NotFoundError` when the application or the
/// record is absent; nothing is mutated then.
pub fn update_key(
    apps: &AppStorage,
    keys: &mut RpcKeyStorage,
    app: &str,
    key: &str,
    expires: Option<u64>,
    active: Option<bool>,
    tag: Vec<String>,
    quota_second: Option<u64>,
    quota_minute: Option<u64>,
    quota_hour: Option<u64>,
    quota_day: Option<u64>,
    quota_week: Option<u64>,
    quota_month: Option<u64>,
    quota_year: Option<u64>,
) -> (r: Result<RpcKey, CoreError>)
    requires
        apps.wf(),
        old(keys).wf(),
    ensures
        final(keys).wf(),
        (!apps.records().contains_key(app@) || !old(keys).records().contains_key(
            rk_name(app@, key@),
        ) ==> r == Err::<RpcKey, CoreError>(CoreError::NotFoundError) && final(keys).records()
            == old(keys).records()),
        (apps.records().contains_key(app@) && old(keys).records().contains_key(
            rk_name(app@, key@),
        ) ==> (r matches Ok(u) && u@ == spec_update_key(
            old(keys).records()[rk_name(app@, key@)],
            expires,
            active,
            tag.deep_view(),
            quota_second,
            quota_minute,
            quota_hour,
            quota_day,
            quota_week,
            quota_month,
            quota_year,
        )) && final(keys).records() =~= old(keys).records().insert(rk_name(app@, key@), r->Ok_0@)),
{
    if apps.get(app).is_none() {
        return Err(CoreError::NotFoundError);
    }
    let mut doc = match keys.get(app, key) {
        Some(k) => k,
        None => {
            return Err(CoreError::NotFoundError);
        },
    };
    if let Some(x) = expires {
        doc.expires = x;
    }
    if let Some(x) = active {
        doc.active = x;
    }
    if let Some(x) = quota_second {
        doc.quota_second = Some(x);
    }
    if let Some(x) = quota_minute {
        doc.quota_minute = Some(x);
    }
    if let Some(x) = quota_hour {
        doc.quota_hour = Some(x);
    }
    if let Some(x) = quota_day {
        doc.quota_day = Some(x);
    }
    if let Some(x) = quota_week {
        doc.quota_week = Some(x);
    }
    if let Some(x) = quota_month {
        doc.quota_month = Some(x);
    }
    if let Some(x) = quota_year {
        doc.quota_year = Some(x);
    }
    let ghost before_tags = doc.tags.deep_view();
    let old_tags = doc.tags;
    proof {
        assert(tag.deep_view().skip(0) =~= tag.deep_view());
    }
    doc.tags = apply_tag_args(old_tags, &tag, 0);
    let _ = keys.set(app, key, &doc);
    Ok(doc)
}

/// Every key under `app`, through a namespace scan. The application must
/// exist; `NotFoundError` otherwise, as for a lookup.
pub fn list_keys(apps: &AppStorage, keys: &RpcKeyStorage, app: &str) -> (r: Result<
    Vec<RpcKey>,
    CoreError,
>)
    requires
        apps.wf(),
        keys.wf(),
    ensures
        (r is Err <==> !apps.records().contains_key(app@)),
        (r is Err ==> r == Err::<Vec<RpcKey>, CoreError>(CoreError::NotFoundError)),
        (r matches Ok(v) ==> v.deep_view() == crate::registry::scan_records_scoped(
            keys.records(),
            app@,
            keys.ids_in_order(app@),
        )),
{
    if apps.get(app).is_none() {
        return Err(CoreError::NotFoundError);
    }
    Ok(keys.scan(app))
}

} // verus!
