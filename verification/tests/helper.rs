use bracket::helper::{Helper, HelperValue};
use bracket::json::Json;
use bracket::registry::{Error, Registry};
use bracket::render::Context;

static NAME: &str = "helper.rs";

pub struct FooHelper;

impl Helper for FooHelper {
    fn call(&self, _ctx: &Context) -> HelperValue {
        Ok(Some(Json::String("bar".to_string())))
    }
}

fn data() -> Json {
    Json::Object(vec![("foo".to_string(), Json::String("qux".to_string()))])
}

#[test]
fn helper_value() -> Result<(), Error> {
    let mut registry: Registry<FooHelper> = Registry::new();
    registry.register_helper("foo", FooHelper {});
    let value = r"{{foo}}";
    // NOTE: the helper takes precedence over the variable
    let data = data();
    let result = registry.once(NAME, value, &data)?;
    assert_eq!("bar", &result);
    Ok(())
}

#[test]
fn helper_explicit_this() -> Result<(), Error> {
    let mut registry: Registry<FooHelper> = Registry::new();
    registry.register_helper("foo", FooHelper {});
    let value = r"{{this.foo}}";
    // NOTE: explicit this causes the variable to take precedence
    let data = data();
    let result = registry.once(NAME, value, &data)?;
    assert_eq!("qux", &result);
    Ok(())
}

#[test]
fn helper_explicit_this_dot_slash() -> Result<(), Error> {
    let mut registry: Registry<FooHelper> = Registry::new();
    registry.register_helper("foo", FooHelper {});
    let value = r"{{./foo}}";
    // NOTE: explicit ./ causes the variable to take precedence
    let data = data();
    let result = registry.once(NAME, value, &data)?;
    assert_eq!("qux", &result);
    Ok(())
}
